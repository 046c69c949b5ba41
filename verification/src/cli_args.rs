use vstd::prelude::*;
use crate::ini::{IniKey, IniMap};
use crate::text::{chars_of, chars_equal, find_char, first_index_of, slice_chars, starts_with_str, string_from_chars, contains_char, string_views};

verus! {

/// Whether `s` begins with `p`.
pub open spec fn has_prefix(s: Seq<char>, p: Seq<char>) -> bool {
    p.len() <= s.len() && s.take(p.len() as int) == p
}

/// The override that an argument `-ini:File:Section:Key=Value` sets: the file
/// runs to the first `:`, the section to the next `:`, and the rest is split at
/// its first `=` into key and value.
pub open spec fn ini_override(arg: Seq<char>) -> Option<(IniKey, Seq<char>)> {
    if has_prefix(arg, "-ini:"@) {
        let rest = arg.skip("-ini:"@.len() as int);
        match first_index_of(rest, ':') {
            Some(a) => {
                let file = rest.take(a);
                let r2 = rest.skip(a + 1);
                match first_index_of(r2, ':') {
                    Some(b) => {
                        let section = r2.take(b);
                        let kv = r2.skip(b + 1);
                        match first_index_of(kv, '=') {
                            Some(c) => Some(((file, section, kv.take(c)), kv.skip(c + 1))),
                            None => None,
                        }
                    },
                    None => None,
                }
            },
            None => None,
        }
    } else {
        None
    }
}

/// The ini overrides that the arguments `args` set, a later argument for a key
/// replacing an earlier one.
pub open spec fn ini_overrides_of(args: Seq<Seq<char>>) -> Map<IniKey, Seq<char>>
    decreases args.len(),
{
    if args.len() == 0 {
        Map::empty()
    } else {
        let prev = ini_overrides_of(args.drop_last());
        match ini_override(args.last()) {
            Some((k, v)) => prev.insert(k, v),
            None => prev,
        }
    }
}

/// The value of the first of `paths` that `m` holds.
pub open spec fn first_ini_value(m: Map<IniKey, Seq<char>>, paths: Seq<IniKey>) -> Option<Seq<char>>
    decreases paths.len(),
{
    if paths.len() == 0 {
        None
    } else if m.contains_key(paths[0]) {
        Some(m[paths[0]])
    } else {
        first_ini_value(m, paths.drop_first())
    }
}

/// The keys named by a list of (file, section, key) triples.
pub open spec fn ini_paths(paths: Seq<(&str, &str, &str)>) -> Seq<IniKey> {
    paths.map_values(|p: (&str, &str, &str)| (p.0@, p.1@, p.2@))
}

/// Splits an `-ini:` argument into its key and value.
fn parse_ini_arg(arg: &[char]) -> (r: Option<(Vec<char>, Vec<char>, Vec<char>, Vec<char>)>)
    ensures
        match r {
            Some((f, s, k, v)) => ini_override(arg@) == Some(((f@, s@, k@), v@)),
            None => ini_override(arg@) is None,
        },
{
    if !starts_with_str(arg, "-ini:") {
        return None;
    }
    let plen = chars_of("-ini:").len();
    let rest = slice_chars(arg, plen, arg.len());
    assert(rest@ =~= arg@.skip("-ini:"@.len() as int));
    let a = match find_char(rest.as_slice(), ':') {
        Some(a) => a,
        None => return None,
    };
    let file = slice_chars(rest.as_slice(), 0, a);
    let r2 = slice_chars(rest.as_slice(), a + 1, rest.len());
    assert(file@ =~= rest@.take(a as int));
    assert(r2@ =~= rest@.skip(a + 1));
    let b = match find_char(r2.as_slice(), ':') {
        Some(b) => b,
        None => return None,
    };
    let section = slice_chars(r2.as_slice(), 0, b);
    let kv = slice_chars(r2.as_slice(), b + 1, r2.len());
    assert(section@ =~= r2@.take(b as int));
    assert(kv@ =~= r2@.skip(b + 1));
    let c = match find_char(kv.as_slice(), '=') {
        Some(c) => c,
        None => return None,
    };
    let key = slice_chars(kv.as_slice(), 0, c);
    let value = slice_chars(kv.as_slice(), c + 1, kv.len());
    assert(key@ =~= kv@.take(c as int));
    assert(value@ =~= kv@.skip(c + 1));
    Some((file, section, key, value))
}

/// Collects the `-ini:File:Section:Key=Value` overrides among `raw_args`.
pub fn process_ini_map(raw_args: &[String]) -> (m: IniMap)
    ensures
        m@ == ini_overrides_of(string_views(raw_args@)),
{
    let mut map = IniMap::new();
    let mut i: usize = 0;
    assert(string_views(raw_args@).take(0) =~= Seq::<Seq<char>>::empty());
    while i < raw_args.len()
        invariant
            i <= raw_args@.len(),
            map@ == ini_overrides_of(string_views(raw_args@).take(i as int)),
        decreases raw_args@.len() - i,
    {
        let arg = chars_of(raw_args[i].as_str());
        assert(string_views(raw_args@).take(i + 1).drop_last() =~= string_views(raw_args@).take(i as int));
        assert(string_views(raw_args@).take(i + 1).last() == arg@);
        match parse_ini_arg(arg.as_slice()) {
            Some((f, s, k, v)) => {
                map.insert(
                    string_from_chars(f.as_slice()),
                    string_from_chars(s.as_slice()),
                    string_from_chars(k.as_slice()),
                    string_from_chars(v.as_slice()),
                );
            },
            None => {},
        }
        i += 1;
    }
    assert(string_views(raw_args@).take(raw_args@.len() as int) =~= string_views(raw_args@));
    map
}

/// The parsed command line of the game process.
pub struct CLIArgs {
    pub next_mod_actors: Option<Vec<String>>,
    pub mod_paks: Option<Vec<String>>,
    pub server_mods: Option<Vec<String>>,
    pub ini_overrides: IniMap,
    pub is_unchained: bool,
    pub rcon_port: Option<u16>,
    pub apply_desync_patch: bool,
    pub use_backend_banlist: bool,
    pub is_headless: bool,
    pub next_map: Option<String>,
    pub launched_profile: Option<String>,
    pub playable_listen: bool,
    pub register: bool,
    pub server_browser_backend: Option<String>,
    pub server_password: Option<String>,
    pub platform: Option<String>,
    pub game_server_ping_port: Option<u16>,
    pub game_server_query_port: Option<u16>,
    pub game_port: Option<u16>,
    pub discord_channel_id: Option<u64>,
    pub discord_admin_channel_id: Option<u64>,
    pub discord_general_channel_id: Option<u64>,
    pub discord_admin_role_id: Option<u64>,
    pub discord_bot_token: Option<String>,
    pub extra_args: Vec<String>,
}

impl CLIArgs {
    /// Collects the ini overrides among `raw_args`.
    pub fn process_ini_map(raw_args: &[String]) -> (m: IniMap)
        ensures
            m@ == ini_overrides_of(string_views(raw_args@)),
    {
        process_ini_map(raw_args)
    }

    /// The process runs as a server exactly when an rcon port was given.
    pub fn is_server(&self) -> (r: bool)
        ensures
            r == self.rcon_port is Some,
    {
        self.rcon_port.is_some()
    }

    /// The discord bridge runs on a server that was given a bot token and a channel.
    pub fn discord_enabled(&self) -> (r: bool)
        ensures
            r == (self.rcon_port is Some && self.discord_bot_token is Some
                && self.discord_channel_id is Some),
    {
        self.is_server() && self.discord_bot_token.is_some() && self.discord_channel_id.is_some()
    }

    /// The override value of the first of `paths` that was set, if any.
    pub fn find_ini_value(&self, paths: &[(&str, &str, &str)]) -> (r: Option<&str>)
        ensures
            match r {
                Some(v) => first_ini_value(self.ini_overrides@, ini_paths(paths@)) == Some(v@),
                None => first_ini_value(self.ini_overrides@, ini_paths(paths@)) is None,
            },
    {
        let mut i: usize = 0;
        assert(ini_paths(paths@).skip(0) =~= ini_paths(paths@));
        while i < paths.len()
            invariant
                i <= paths@.len(),
                first_ini_value(self.ini_overrides@, ini_paths(paths@)) == first_ini_value(
                    self.ini_overrides@,
                    ini_paths(paths@).skip(i as int),
                ),
            decreases paths@.len() - i,
        {
            let (file, section, key) = paths[i];
            let ghost rest = ini_paths(paths@).skip(i as int);
            assert(rest[0] == (file@, section@, key@));
            assert(rest.drop_first() =~= ini_paths(paths@).skip(i + 1));
            match self.ini_overrides.get(file, section, key) {
                Some(v) => {
                    return Some(v);
                },
                None => {},
            }
            i += 1;
        }
        None
    }
}

/// The long flags that the command line of the game process accepts.
pub open spec fn known_flag_names() -> Seq<Seq<char>> {
    seq![
        "--next-map-mod-actors"@,
        "--all-mod-actors"@,
        "--server-mods"@,
        "--unchained"@,
        "--rcon"@,
        "--desync-patch"@,
        "--use-backend-banlist"@,
        "--nullrhi"@,
        "--next-map-name"@,
        "--launched-profile"@,
        "--playable-listen"@,
        "--register"@,
        "--server-browser-backend"@,
        "--server-password"@,
        "--platform"@,
        "--GameServerPingPort"@,
        "--GameServerQueryPort"@,
        "--Port"@,
        "--discord-channel-id"@,
        "--discord-admin-channel-id"@,
        "--discord-general-channel-id"@,
        "--discord-admin-role-id"@,
        "--discord-bot-token"@,
    ]
}

/// The long flags that the command line of the game process accepts.
pub fn known_flags() -> (r: Vec<String>)
    ensures
        string_views(r@) == known_flag_names(),
{
    let mut r: Vec<String> = Vec::new();
    r.push("--next-map-mod-actors".to_owned());
    r.push("--all-mod-actors".to_owned());
    r.push("--server-mods".to_owned());
    r.push("--unchained".to_owned());
    r.push("--rcon".to_owned());
    r.push("--desync-patch".to_owned());
    r.push("--use-backend-banlist".to_owned());
    r.push("--nullrhi".to_owned());
    r.push("--next-map-name".to_owned());
    r.push("--launched-profile".to_owned());
    r.push("--playable-listen".to_owned());
    r.push("--register".to_owned());
    r.push("--server-browser-backend".to_owned());
    r.push("--server-password".to_owned());
    r.push("--platform".to_owned());
    r.push("--GameServerPingPort".to_owned());
    r.push("--GameServerQueryPort".to_owned());
    r.push("--Port".to_owned());
    r.push("--discord-channel-id".to_owned());
    r.push("--discord-admin-channel-id".to_owned());
    r.push("--discord-general-channel-id".to_owned());
    r.push("--discord-admin-role-id".to_owned());
    r.push("--discord-bot-token".to_owned());
    assert(string_views(r@) =~= known_flag_names());
    r
}

/// `s` without its leading `-` characters.
pub open spec fn trim_leading_dashes(s: Seq<char>) -> Seq<char>
    decreases s.len(),
{
    if s.len() > 0 && s[0] == '-' {
        trim_leading_dashes(s.drop_first())
    } else {
        s
    }
}

/// Whether `a` is an ini override argument, kept apart and moved to the end.
pub open spec fn is_ini_arg(a: Seq<char>) -> bool {
    has_prefix(a, "-ini:"@)
}

/// Whether `a` can be taken as a value of the flag before it: it does not
/// start with `-` and holds no `=`.
pub open spec fn is_flag_value(a: Seq<char>) -> bool {
    !(a.len() > 0 && a[0] == '-') && !a.contains('=')
}

/// The flag an argument names in `--key` form, with the value it carries after
/// `=`: `Key=V` and `-key=V` become `--Key`/`--key` with value `V`, `-key`
/// (longer than two bytes) becomes `--key`, and anything else stays as it is.
pub open spec fn normalize_flag(a: Seq<char>) -> (Seq<char>, Option<Seq<char>>) {
    match first_index_of(a, '=') {
        Some(i) => ("--"@ + trim_leading_dashes(a.take(i)), Some(a.skip(i + 1))),
        None => if a.len() > 0 && a[0] == '-' && !(a.len() > 1 && a[1] == '-') && utf8_longer_than_two(a) {
            ("--"@ + a.skip(1), None)
        } else {
            (a, None)
        },
    }
}

/// Whether the UTF-8 encoding of `a` takes more than two bytes (a character
/// below U+0080 takes one byte, one below U+0800 two, any other more).
pub open spec fn utf8_longer_than_two(a: Seq<char>) -> bool {
    ||| a.len() > 2
    ||| a.len() == 2 && ((a[0] as u32) >= 0x80 || (a[1] as u32) >= 0x80)
    ||| a.len() == 1 && (a[0] as u32) >= 0x800
}

/// Normalizes `args[i..]`: the first result holds the known flags with their
/// values, the second the ini arguments; `collecting` says that the argument
/// before `args[i]` was a known flag without an `=` value, so that the plain
/// arguments that follow are its values.
pub open spec fn normalize_from(args: Seq<Seq<char>>, known: Seq<Seq<char>>, i: int, collecting: bool) -> (
    Seq<Seq<char>>,
    Seq<Seq<char>>,
)
    decreases args.len() - i,
{
    if i < 0 || i >= args.len() {
        (seq![], seq![])
    } else {
        let a = args[i];
        if collecting && is_flag_value(a) {
            let (o, n) = normalize_from(args, known, i + 1, true);
            (seq![a] + o, n)
        } else if is_ini_arg(a) {
            let (o, n) = normalize_from(args, known, i + 1, false);
            (o, seq![a] + n)
        } else {
            let (flag, value) = normalize_flag(a);
            if known.contains(flag) {
                match value {
                    Some(v) => {
                        let (o, n) = normalize_from(args, known, i + 1, false);
                        (seq![flag, v] + o, n)
                    },
                    None => {
                        let (o, n) = normalize_from(args, known, i + 1, true);
                        (seq![flag] + o, n)
                    },
                }
            } else {
                normalize_from(args, known, i + 1, false)
            }
        }
    }
}

/// The program name that heads a normalized command line.
pub open spec fn program_name(args: Seq<Seq<char>>) -> Seq<char> {
    if args.len() > 0 {
        args[0]
    } else {
        "app"@
    }
}

/// The command line `args` in the `--key value` form, with the flags the game
/// does not accept dropped and the ini overrides moved to the end.
pub open spec fn normalized_args(args: Seq<Seq<char>>) -> Seq<Seq<char>> {
    let (o, n) = normalize_from(args, known_flag_names(), 1, false);
    seq![program_name(args)] + o + n
}

/// The ini override arguments among `args[i..]`, in order.
pub open spec fn ini_args_from(args: Seq<Seq<char>>, i: int) -> Seq<Seq<char>>
    decreases args.len() - i,
{
    if i < 0 || i >= args.len() {
        seq![]
    } else if is_ini_arg(args[i]) {
        seq![args[i]] + ini_args_from(args, i + 1)
    } else {
        ini_args_from(args, i + 1)
    }
}

/// From any position after the program name on, the ini override arguments
/// that normalizing collects are those of the rest of the line.
proof fn lemma_normalize_ini_tail(args: Seq<Seq<char>>, known: Seq<Seq<char>>, i: int, collecting: bool)
    requires
        i >= 1,
    ensures
        normalize_from(args, known, i, collecting).1 == ini_args_from(args, i),
    decreases args.len() - i,
{
    if i < args.len() {
        lemma_normalize_ini_tail(args, known, i + 1, true);
        lemma_normalize_ini_tail(args, known, i + 1, false);
        if collecting && is_flag_value(args[i]) {
            reveal_strlit("-ini:");
            assert(!is_ini_arg(args[i])) by {
                if is_ini_arg(args[i]) {
                    assert(args[i].take(5)[0] == args[i][0]);
                }
            }
        }
    }
}

/// A normalized command line begins with the program name and ends with the
/// ini override arguments, in the order they were given.
pub proof fn lemma_normalized_args_shape(args: Seq<Seq<char>>)
    ensures
        normalized_args(args)[0] == program_name(args),
        ({
            let out = normalized_args(args);
            let inis = ini_args_from(args, 1);
            inis.len() < out.len() && out.skip(out.len() - inis.len()) == inis
        }),
{
    lemma_normalize_ini_tail(args, known_flag_names(), 1, false);
    let (o, n) = normalize_from(args, known_flag_names(), 1, false);
    let out = seq![program_name(args)] + o + n;
    assert(out.skip(out.len() - n.len()) =~= n);
}

/// Every known flag starts with `-`, so a plain argument is never one.
proof fn lemma_plain_argument_unknown(a: Seq<char>)
    requires
        is_flag_value(a),
    ensures
        !known_flag_names().contains(a),
        !is_ini_arg(a),
        normalize_flag(a) == (a, None::<Seq<char>>),
{
    reveal_strlit("--next-map-mod-actors");
    reveal_strlit("--all-mod-actors");
    reveal_strlit("--server-mods");
    reveal_strlit("--unchained");
    reveal_strlit("--rcon");
    reveal_strlit("--desync-patch");
    reveal_strlit("--use-backend-banlist");
    reveal_strlit("--nullrhi");
    reveal_strlit("--next-map-name");
    reveal_strlit("--launched-profile");
    reveal_strlit("--playable-listen");
    reveal_strlit("--register");
    reveal_strlit("--server-browser-backend");
    reveal_strlit("--server-password");
    reveal_strlit("--platform");
    reveal_strlit("--GameServerPingPort");
    reveal_strlit("--GameServerQueryPort");
    reveal_strlit("--Port");
    reveal_strlit("--discord-channel-id");
    reveal_strlit("--discord-admin-channel-id");
    reveal_strlit("--discord-general-channel-id");
    reveal_strlit("--discord-admin-role-id");
    reveal_strlit("--discord-bot-token");
    reveal_strlit("-ini:");
    let known = known_flag_names();
    assert forall|k: int| 0 <= k < known.len() implies known[k].len() > 0 && known[k][0] == '-' by {
        assert(known[k] == known_flag_names()[k]);
    }
    if known.contains(a) {
        let k = choose|k: int| 0 <= k < known.len() && known[k] == a;
        assert(known[k][0] == '-');
    }
    if is_ini_arg(a) {
        assert(a.take(5)[0] == a[0]);
    }
}

/// Positions after the one removed read the same as one position further on
/// in the full line.
proof fn lemma_normalize_after_removal(args: Seq<Seq<char>>, known: Seq<Seq<char>>, r: int, m: int, collecting: bool)
    requires
        0 <= r < args.len(),
        r <= m,
    ensures
        normalize_from(args.remove(r), known, m, collecting) == normalize_from(args, known, m + 1, collecting),
    decreases args.len() - m,
{
    let short = args.remove(r);
    if m < short.len() {
        assert(short[m] == args[m + 1]);
        lemma_normalize_after_removal(args, known, r, m + 1, true);
        lemma_normalize_after_removal(args, known, r, m + 1, false);
    }
}

/// Positions before `b` read the same in the full line and in the line
/// without `args[r]`, when both read the same from `b` on.
proof fn lemma_normalize_before_removal(
    args: Seq<Seq<char>>,
    known: Seq<Seq<char>>,
    r: int,
    b: int,
    j: int,
    collecting: bool,
)
    requires
        1 <= j <= b < r < args.len(),
        normalize_from(args.remove(r), known, b, false) == normalize_from(args, known, b, false),
        normalize_from(args.remove(r), known, b, true) == normalize_from(args, known, b, true),
    ensures
        normalize_from(args.remove(r), known, j, collecting) == normalize_from(args, known, j, collecting),
    decreases b - j,
{
    let short = args.remove(r);
    if j < b {
        assert(short[j] == args[j]);
        lemma_normalize_before_removal(args, known, r, b, j + 1, true);
        lemma_normalize_before_removal(args, known, r, b, j + 1, false);
    }
}

/// A flag that the game does not accept is dropped together with the plain
/// argument right after it: that argument is never taken as a value of an
/// earlier flag, and removing it leaves the normalized line unchanged.
pub proof fn lemma_unknown_flag_drops_its_value(args: Seq<Seq<char>>, i: int)
    requires
        1 <= i,
        i + 1 < args.len(),
        !is_flag_value(args[i]),
        !is_ini_arg(args[i]),
        !known_flag_names().contains(normalize_flag(args[i]).0),
        is_flag_value(args[i + 1]),
    ensures
        normalized_args(args.remove(i + 1)) == normalized_args(args),
{
    let known = known_flag_names();
    let short = args.remove(i + 1);
    lemma_plain_argument_unknown(args[i + 1]);
    // In the full line the plain argument is dropped as an unknown flag.
    assert(normalize_from(args, known, i + 1, false) == normalize_from(args, known, i + 2, false));
    lemma_normalize_after_removal(args, known, i + 1, i + 1, false);
    assert(short[i] == args[i]);
    // From the unknown flag on, both lines read the same whatever came before.
    assert(normalize_from(short, known, i, false) == normalize_from(args, known, i, false));
    assert(normalize_from(short, known, i, true) == normalize_from(args, known, i, true));
    lemma_normalize_before_removal(args, known, i + 1, i, 1, false);
    assert(program_name(short) == program_name(args));
}

/// Removes the leading `-` characters of `s`.
fn trim_dashes(s: &[char]) -> (r: Vec<char>)
    ensures
        r@ == trim_leading_dashes(s@),
{
    let mut i: usize = 0;
    assert(s@.skip(0) =~= s@);
    while i < s.len() && s[i] == '-'
        invariant
            i <= s@.len(),
            trim_leading_dashes(s@) == trim_leading_dashes(s@.skip(i as int)),
        decreases s@.len() - i,
    {
        assert(s@.skip(i as int).drop_first() =~= s@.skip(i + 1));
        i += 1;
    }
    let r = slice_chars(s, i, s.len());
    assert(r@ =~= s@.skip(i as int));
    r
}

/// Computes `normalize_flag` of an argument.
fn split_flag(a: &str) -> (r: (Vec<char>, Option<Vec<char>>))
    ensures
        r.0@ == normalize_flag(a@).0,
        match r.1 {
            Some(v) => normalize_flag(a@).1 == Some(v@),
            None => normalize_flag(a@).1 is None,
        },
{
    let cs = chars_of(a);
    let dash = chars_of("--");
    proof {
        reveal_strlit("--");
    }
    match find_char(cs.as_slice(), '=') {
        Some(i) => {
            assert(i < cs.len());
            let k = slice_chars(cs.as_slice(), 0, i);
            let v = slice_chars(cs.as_slice(), i + 1, cs.len());
            assert(k@ =~= cs@.take(i as int));
            assert(v@ =~= cs@.skip(i + 1));
            let t = trim_dashes(k.as_slice());
            let mut flag = dash;
            let mut j: usize = 0;
            while j < t.len()
                invariant
                    j <= t@.len(),
                    flag@ == "--"@ + t@.take(j as int),
                decreases t@.len() - j,
            {
                flag.push(t[j]);
                j += 1;
                assert(flag@ =~= "--"@ + t@.take(j as int));
            }
            assert(t@.take(t@.len() as int) =~= t@);
            (flag, Some(v))
        },
        None => {
            let longer = cs.len() > 2 || (cs.len() == 2 && ((cs[0] as u32) >= 0x80 || (cs[1] as u32)
                >= 0x80)) || (cs.len() == 1 && (cs[0] as u32) >= 0x800);
            if cs.len() > 0 && cs[0] == '-' && !(cs.len() > 1 && cs[1] == '-') && longer {
                let rest = slice_chars(cs.as_slice(), 1, cs.len());
                assert(rest@ =~= cs@.skip(1));
                let mut flag = dash;
                let mut j: usize = 0;
                while j < rest.len()
                    invariant
                        j <= rest@.len(),
                        flag@ == "--"@ + rest@.take(j as int),
                    decreases rest@.len() - j,
                {
                    flag.push(rest[j]);
                    j += 1;
                    assert(flag@ =~= "--"@ + rest@.take(j as int));
                }
                assert(rest@.take(rest@.len() as int) =~= rest@);
                (flag, None)
            } else {
                (cs, None)
            }
        },
    }
}

/// Whether `flag` is one of `known`.
fn is_known(known: &Vec<Vec<char>>, flag: &[char]) -> (r: bool)
    ensures
        r == crate::text::views(known@).contains(flag@),
{
    let mut i: usize = 0;
    while i < known.len()
        invariant
            i <= known@.len(),
            forall|j: int| 0 <= j < i ==> known@[j]@ != flag@,
        decreases known@.len() - i,
    {
        if chars_equal(known[i].as_slice(), flag) {
            assert(crate::text::views(known@)[i as int] == flag@);
            return true;
        }
        i += 1;
    }
    proof {
        if crate::text::views(known@).contains(flag@) {
            let j = choose|j: int| 0 <= j < known@.len() && crate::text::views(known@)[j] == flag@;
            assert(known@[j]@ == flag@);
        }
    }
    false
}

/// Brings a game command line into the `--key value` form: `-rcon 9001`,
/// `Port=7777` and `-key=value` become `--rcon 9001`, `--Port 7777` and
/// `--key value`; flags the game does not accept are dropped, and the
/// `-ini:` overrides move to the end.
pub fn normalize_and_filter_args(args: Vec<String>) -> (r: Vec<String>)
    ensures
        string_views(r@) == normalized_args(string_views(args@)),
{
    let ghost av = string_views(args@);
    let known_s = known_flags();
    let mut known: Vec<Vec<char>> = Vec::new();
    let mut k: usize = 0;
    while k < known_s.len()
        invariant
            k <= known_s@.len(),
            string_views(known_s@) == known_flag_names(),
            crate::text::views(known@) =~= known_flag_names().take(k as int),
        decreases known_s@.len() - k,
    {
        let ghost before = crate::text::views(known@);
        assert(string_views(known_s@)[k as int] == known_s@[k as int]@);
        known.push(chars_of(known_s[k].as_str()));
        assert(crate::text::views(known@) =~= before.push(known_s@[k as int]@));
        k += 1;
    }
    assert(crate::text::views(known@) =~= known_flag_names());
    let mut result: Vec<String> = Vec::new();
    if args.len() > 0 {
        result.push(args[0].clone());
    } else {
        result.push("app".to_owned());
    }
    let mut ini_args: Vec<String> = Vec::new();
    let mut collecting = false;
    let mut i: usize = 1;
    let ghost total = normalize_from(av, known_flag_names(), 1, false);
    while i < args.len()
        invariant
            1 <= i,
            i <= args@.len() || args@.len() == 0,
            av == string_views(args@),
            crate::text::views(known@) == known_flag_names(),
            string_views(result@) + normalize_from(av, known_flag_names(), i as int, collecting).0
                == seq![program_name(av)] + total.0,
            string_views(ini_args@) + normalize_from(av, known_flag_names(), i as int, collecting).1
                == total.1,
        decreases args@.len() - i,
    {
        let ghost before_r = string_views(result@);
        let ghost before_n = string_views(ini_args@);
        let a = args[i].as_str();
        let cs = chars_of(a);
        assert(av[i as int] == a@);
        let as_value = collecting && !(cs.len() > 0 && cs[0] == '-') && !contains_char(cs.as_slice(), '=');
        if as_value {
            result.push(args[i].clone());
            assert(string_views(result@) =~= before_r.push(a@));
        } else if starts_with_str(cs.as_slice(), "-ini:") {
            ini_args.push(args[i].clone());
            collecting = false;
            assert(string_views(ini_args@) =~= before_n.push(a@));
        } else {
            let (flag, value) = split_flag(a);
            if is_known(&known, flag.as_slice()) {
                result.push(string_from_chars(flag.as_slice()));
                match value {
                    Some(v) => {
                        result.push(string_from_chars(v.as_slice()));
                        collecting = false;
                        assert(string_views(result@) =~= before_r.push(flag@).push(v@));
                    },
                    None => {
                        collecting = true;
                        assert(string_views(result@) =~= before_r.push(flag@));
                    },
                }
            } else {
                collecting = false;
            }
        }
        i += 1;
    }
    let ghost mid = string_views(result@);
    let mut j: usize = 0;
    while j < ini_args.len()
        invariant
            j <= ini_args@.len(),
            string_views(result@) == mid + string_views(ini_args@).take(j as int),
        decreases ini_args@.len() - j,
    {
        let ghost before = string_views(result@);
        result.push(ini_args[j].clone());
        assert(string_views(result@) =~= before.push(ini_args@[j as int]@));
        j += 1;
        assert(string_views(result@) =~= mid + string_views(ini_args@).take(j as int));
    }
    assert(string_views(ini_args@).take(ini_args@.len() as int) =~= string_views(ini_args@));
    result
}

} // verus!

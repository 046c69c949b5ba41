use vstd::prelude::*;
use crate::text::{
    chars_of, chars_equal, lemma_text_le_total, split_whitespace, split_ws, string_from_chars,
    text_le, text_le_exec, views, append_str,
};

verus! {

/// A console command that the plugin registers: its name, aliases, optional
/// subcommand and help text, and whether it must run on the game thread.
pub struct ConsoleCommand {
    pub name: &'static str,
    pub aliases: &'static [&'static str],
    pub subcommand: Option<&'static str>,
    pub description: &'static str,
    pub params: &'static str,
    pub game_thread_required: bool,
}

/// Whether `w` is one of the strings of `list`.
pub open spec fn str_list_contains(list: Seq<&str>, w: Seq<char>) -> bool {
    exists|i: int| 0 <= i < list.len() && (#[trigger] list[i])@ == w
}

/// Whether the command `c` answers the input words `parts` (`parts` is not
/// empty). A command without subcommand answers its name or an alias. A
/// command with subcommand answers its name or an alias followed by the
/// subcommand, and also an alias alone, which is a shortcut for it.
pub open spec fn command_matches(c: ConsoleCommand, parts: Seq<Seq<char>>) -> bool {
    let name_matches = c.name@ == parts[0];
    let alias_matches = str_list_contains(c.aliases@, parts[0]);
    match c.subcommand {
        Some(sub) => {
            let is_standard = (name_matches || alias_matches) && parts.len() > 1 && sub@ == parts[1];
            is_standard || alias_matches
        },
        None => name_matches || alias_matches,
    }
}

/// The index of the first of `cmds` that answers `parts`.
pub open spec fn first_matching_command(cmds: Seq<ConsoleCommand>, parts: Seq<Seq<char>>) -> Option<int> {
    if exists|i: int| 0 <= i < cmds.len() && command_matches(#[trigger] cmds[i], parts) {
        Some(
            choose|i: int|
                0 <= i < cmds.len() && command_matches(cmds[i], parts) && forall|j: int|
                    0 <= j < i ==> !command_matches(#[trigger] cmds[j], parts),
        )
    } else {
        None
    }
}

/// When command `i` answers `parts`, a first command answering them exists,
/// at or before `i`.
proof fn lemma_first_match_exists(cmds: Seq<ConsoleCommand>, parts: Seq<Seq<char>>, i: int)
    requires
        0 <= i < cmds.len(),
        command_matches(cmds[i], parts),
    ensures
        exists|j: int|
            0 <= j <= i && command_matches(cmds[j], parts) && forall|x: int| 0 <= x < j ==> !command_matches(#[trigger] cmds[x], parts),
    decreases i,
{
    if exists|x: int| 0 <= x < i && command_matches(#[trigger] cmds[x], parts) {
        let x = choose|x: int| 0 <= x < i && command_matches(#[trigger] cmds[x], parts);
        lemma_first_match_exists(cmds, parts, x);
    } else {
        assert(forall|x: int| 0 <= x < i ==> !command_matches(#[trigger] cmds[x], parts));
    }
}

/// A command without subcommand is called by its name and by each of its
/// aliases alike: when the first word of a line is the name or an alias of
/// command `i`, the first command answering the line is `i` or an earlier
/// one, so [`dispatch_command`] gives `Some` (command `i` when no earlier
/// command answers).
pub proof fn lemma_name_or_alias_calls_command(cmds: Seq<ConsoleCommand>, parts: Seq<Seq<char>>, i: int)
    requires
        0 <= i < cmds.len(),
        cmds[i].subcommand is None,
        parts.len() > 0,
        parts[0] == cmds[i].name@ || exists|k: int| 0 <= k < cmds[i].aliases@.len() && parts[0] == (#[trigger] cmds[i].aliases@[k])@,
    ensures
        first_matching_command(cmds, parts) matches Some(j) && 0 <= j <= i && command_matches(cmds[j], parts),
        first_matching_command(cmds, parts) == Some(i) || exists|j: int| 0 <= j < i && command_matches(#[trigger] cmds[j], parts),
{
    if parts[0] != cmds[i].name@ {
        let k = choose|k: int| 0 <= k < cmds[i].aliases@.len() && parts[0] == (#[trigger] cmds[i].aliases@[k])@;
        assert(str_list_contains(cmds[i].aliases@, parts[0]));
    }
    assert(command_matches(cmds[i], parts));
    lemma_first_match_exists(cmds, parts, i);
    let w = choose|j: int|
        0 <= j <= i && command_matches(cmds[j], parts) && forall|x: int| 0 <= x < j ==> !command_matches(#[trigger] cmds[x], parts);
    assert(0 <= w < cmds.len() && command_matches(cmds[w], parts));
    let j = first_matching_command(cmds, parts)->0;
    assert(first_matching_command(cmds, parts) is Some);
    assert(0 <= j < cmds.len() && command_matches(cmds[j], parts) && forall|x: int| 0 <= x < j ==> !command_matches(#[trigger] cmds[x], parts));
    if j < w {
        assert(!command_matches(cmds[j], parts));
    }
    if w < j {
        assert(!command_matches(cmds[w], parts));
    }
    assert(j == w);
}

/// The words of `parts` after the first `n` (none when there are fewer).
pub open spec fn words_after(parts: Seq<Seq<char>>, n: int) -> Seq<Seq<char>> {
    if n <= parts.len() {
        parts.skip(n)
    } else {
        seq![]
    }
}

/// A command chosen for an input line: which command runs, with which
/// arguments, and whether it must run on the game thread.
pub struct CommandDispatch {
    pub index: usize,
    pub args: Vec<String>,
    pub game_thread_required: bool,
}

/// Whether `w` is one of the strings of `list`.
fn list_contains(list: &[&str], w: &[char]) -> (r: bool)
    ensures
        r == str_list_contains(list@, w@),
{
    let mut i: usize = 0;
    while i < list.len()
        invariant
            i <= list@.len(),
            forall|j: int| 0 <= j < i ==> (#[trigger] list@[j])@ != w@,
        decreases list@.len() - i,
    {
        let c = chars_of(list[i]);
        if chars_equal(c.as_slice(), w) {
            return true;
        }
        i += 1;
    }
    false
}

/// Whether the command `c` answers the input words `parts`.
fn matches_command(c: &ConsoleCommand, parts: &Vec<Vec<char>>) -> (r: bool)
    requires
        parts@.len() > 0,
    ensures
        r == command_matches(*c, views(parts@)),
{
    let name = chars_of(c.name);
    let name_matches = chars_equal(name.as_slice(), parts[0].as_slice());
    let alias_matches = list_contains(c.aliases, parts[0].as_slice());
    match c.subcommand {
        Some(sub) => {
            let s = chars_of(sub);
            let is_standard = (name_matches || alias_matches) && parts.len() > 1 && chars_equal(
                s.as_slice(),
                parts[1].as_slice(),
            );
            is_standard || alias_matches
        },
        None => name_matches || alias_matches,
    }
}

/// Picks the command that the input line `input` calls among `commands`, and
/// its arguments: the words after the command name, and after the subcommand
/// for a command that has one. Returns `None` for an empty line or one that no
/// command answers.
pub fn dispatch_command(commands: &[ConsoleCommand], input: &str) -> (r: Option<CommandDispatch>)
    ensures
        ({
            let parts = split_ws(input@);
            match r {
                None => parts.len() == 0 || first_matching_command(commands@, parts) is None,
                Some(d) => {
                    &&& parts.len() > 0
                    &&& first_matching_command(commands@, parts) == Some(d.index as int)
                    &&& d.game_thread_required == commands@[d.index as int].game_thread_required
                    &&& d.args@.map_values(|s: String| s@) == words_after(
                        parts,
                        if commands@[d.index as int].subcommand is Some {
                            2
                        } else {
                            1
                        },
                    )
                }
            }
        }),
{
    let cs = chars_of(input);
    let parts = split_whitespace(cs.as_slice());
    if parts.len() == 0 {
        return None;
    }
    let mut i: usize = 0;
    while i < commands.len()
        invariant
            i <= commands@.len(),
            parts@.len() > 0,
            views(parts@) == split_ws(input@),
            forall|j: int| 0 <= j < i ==> !command_matches(#[trigger] commands@[j], views(parts@)),
        decreases commands@.len() - i,
    {
        if matches_command(&commands[i], &parts) {
            let skip: usize = if commands[i].subcommand.is_some() { 2 } else { 1 };
            let mut args: Vec<String> = Vec::new();
            if skip <= parts.len() {
                let mut k: usize = skip;
                while k < parts.len()
                    invariant
                        skip <= k <= parts@.len(),
                        args@.map_values(|s: String| s@) =~= views(parts@).subrange(skip as int, k as int),
                    decreases parts@.len() - k,
                {
                    let ghost before = args@.map_values(|s: String| s@);
                    args.push(string_from_chars(parts[k].as_slice()));
                    assert(args@.map_values(|s: String| s@) =~= before.push(parts@[k as int]@));
                    k += 1;
                }
            }
            proof {
                assert(command_matches(commands@[i as int], views(parts@)));
                let w = first_matching_command(commands@, views(parts@));
                assert(w is Some);
                assert(args@.map_values(|s: String| s@) =~= words_after(views(parts@), skip as int));
            }
            return Some(
                CommandDispatch {
                    index: i,
                    args,
                    game_thread_required: commands[i].game_thread_required,
                },
            );
        }
        i += 1;
    }
    None
}

/// `s` padded with spaces on the right to `w` characters (the `{:w}` format).
pub open spec fn pad_right(s: Seq<char>, w: nat) -> Seq<char> {
    if s.len() >= w {
        s
    } else {
        s + Seq::new((w - s.len()) as nat, |i: int| ' ')
    }
}

/// ` <subcommand>` for a command with a subcommand, nothing otherwise.
pub open spec fn sub_suffix(c: ConsoleCommand) -> Seq<char> {
    match c.subcommand {
        Some(sub) => seq![' '] + sub@,
        None => Seq::<char>::empty(),
    }
}

/// The help line of one command: `  <name>[ <sub>] <params> - <description>`.
pub open spec fn detail_line(c: ConsoleCommand) -> Seq<char> {
    "  "@ + c.name@ + sub_suffix(c) + " "@ + c.params@ + " - "@ + c.description@
}

/// The help for the commands named `target`: a header, then the line of each
/// such command, or a notice when there is none.
pub open spec fn help_details(cmds: Seq<ConsoleCommand>, target: Seq<char>) -> Seq<Seq<char>> {
    let named = cmds.filter(|c: ConsoleCommand| c.name@ == target);
    seq!["--- Help for '"@ + target + "' ---"@] + if named.len() == 0 {
        seq!["No command found named '"@ + target + "'"@]
    } else {
        named.map_values(|c: ConsoleCommand| detail_line(c))
    }
}

/// Whether `names` lists, in increasing order and once each, the names of
/// the commands.
pub open spec fn parent_names(cmds: Seq<ConsoleCommand>, names: Seq<Seq<char>>) -> bool {
    &&& forall|i: int, j: int| 0 <= i < j < names.len() ==> text_le(names[i], names[j]) && names[i] != names[j]
    &&& forall|n: Seq<char>| names.contains(n) <==> is_command_name(cmds, n)
}

/// The subcommands of the commands named `parent`, in order.
pub open spec fn subs_of(cmds: Seq<ConsoleCommand>, parent: Seq<char>) -> Seq<Seq<char>> {
    cmds.filter(|c: ConsoleCommand| c.name@ == parent && c.subcommand is Some).map_values(
        |c: ConsoleCommand| c.subcommand->0@,
    )
}

/// The strings of `s` joined by `, `.
pub open spec fn join_comma(s: Seq<Seq<char>>) -> Seq<char>
    decreases s.len(),
{
    if s.len() == 0 {
        Seq::empty()
    } else if s.len() == 1 {
        s[0]
    } else {
        join_comma(s.drop_last()) + ", "@ + s.last()
    }
}

/// The first command named `n` (meaningful when there is one).
pub open spec fn first_named(cmds: Seq<ConsoleCommand>, n: Seq<char>) -> ConsoleCommand
    decreases cmds.len(),
{
    if cmds.len() == 0 || cmds[0].name@ == n {
        cmds[0]
    } else {
        first_named(cmds.drop_first(), n)
    }
}

/// The overview line of the commands named `parent`: its subcommands when it
/// has some, otherwise the parameters and description of the first such
/// command, in padded columns.
pub open spec fn overview_line(cmds: Seq<ConsoleCommand>, parent: Seq<char>) -> Seq<char> {
    let subs = subs_of(cmds, parent);
    if subs.len() == 0 {
        let c = first_named(cmds, parent);
        "  "@ + pad_right(c.name@, 15) + " "@ + pad_right(c.params@, 25) + " - "@ + c.description@
    } else {
        "  "@ + pad_right(parent, 15) + " [subs: "@ + join_comma(subs) + "]"@
    }
}

/// The overview of all commands: a header, one line per command name in
/// order, and a hint.
pub open spec fn help_overview(cmds: Seq<ConsoleCommand>, names: Seq<Seq<char>>) -> Seq<Seq<char>> {
    seq!["--- Available Commands ---"@] + names.map_values(|n: Seq<char>| overview_line(cmds, n))
        + seq!["\nUse 'help <command>' for more info."@]
}

/// Appends `s` padded with spaces to `w` characters.
pub(crate) fn push_padded(out: &mut Vec<char>, s: &[char], w: usize)
    ensures
        final(out)@ == old(out)@ + pad_right(s@, w as nat),
{
    let mut i: usize = 0;
    while i < s.len()
        invariant
            i <= s@.len(),
            out@ == old(out)@ + s@.take(i as int),
        decreases s@.len() - i,
    {
        out.push(s[i]);
        assert(s@.take(i + 1) =~= s@.take(i as int).push(s@[i as int]));
        i += 1;
    }
    assert(s@.take(s@.len() as int) =~= s@);
    let ghost base = out@;
    let mut k: usize = s.len();
    while k < w
        invariant
            s@.len() <= k <= w || (k == s@.len() && k >= w),
            out@ == base + Seq::new((k - s@.len()) as nat, |j: int| ' '),
        decreases w - k,
    {
        out.push(' ');
        assert(base + Seq::new((k + 1 - s@.len()) as nat, |j: int| ' ') =~= (base + Seq::new(
            (k - s@.len()) as nat,
            |j: int| ' ',
        )).push(' '));
        k += 1;
    }
    if s.len() >= w {
        assert(out@ =~= old(out)@ + s@);
    } else {
        assert(out@ =~= old(out)@ + pad_right(s@, w as nat));
    }
}

/// The help text of the commands (one string per line): the details of the
/// commands named `command_name` when one is given (see [`help_details`]),
/// otherwise the overview of all command names (see [`help_overview`]).
pub fn help_lines(commands: &[ConsoleCommand], command_name: Option<&str>) -> (r: Vec<String>)
    ensures
        match command_name {
            Some(t) => r@.map_values(|s: String| s@) == help_details(commands@, t@),
            None => exists|names: Seq<Seq<char>>|
                parent_names(commands@, names) && r@.map_values(|s: String| s@) == help_overview(
                    commands@,
                    names,
                ),
        },
{
    match command_name {
        Some(t) => help_details_lines(commands, t),
        None => help_overview_lines(commands),
    }
}

/// The details part of [`help_lines`].
fn help_details_lines(commands: &[ConsoleCommand], t: &str) -> (r: Vec<String>)
    ensures
        r@.map_values(|s: String| s@) == help_details(commands@, t@),
{
    let tc = chars_of(t);
    let mut lines: Vec<String> = Vec::new();
    let mut h: Vec<char> = Vec::new();
    append_str(&mut h, "--- Help for '");
    append_str(&mut h, t);
    append_str(&mut h, "' ---");
    lines.push(string_from_chars(h.as_slice()));
    let ghost pred = |c: ConsoleCommand| c.name@ == t@;
    let mut found = false;
    let mut i: usize = 0;
    while i < commands.len()
        invariant
            i <= commands@.len(),
            tc@ == t@,
            pred == (|c: ConsoleCommand| c.name@ == t@),
            found == (commands@.take(i as int).filter(pred).len() > 0),
            lines@.map_values(|s: String| s@) == seq!["--- Help for '"@ + t@ + "' ---"@]
                + commands@.take(i as int).filter(pred).map_values(|c: ConsoleCommand| detail_line(c)),
        decreases commands@.len() - i,
    {
        let c = &commands[i];
        let ghost before = lines@.map_values(|s: String| s@);
        assert(commands@.take(i + 1).drop_last() =~= commands@.take(i as int));
        reveal_with_fuel(Seq::<_>::filter, 1);
        let name = chars_of(c.name);
        if chars_equal(name.as_slice(), tc.as_slice()) {
            let mut l: Vec<char> = Vec::new();
            append_str(&mut l, "  ");
            append_str(&mut l, c.name);
            match c.subcommand {
                Some(sub) => {
                    l.push(' ');
                    append_str(&mut l, sub);
                },
                None => {},
            }
            append_str(&mut l, " ");
            append_str(&mut l, c.params);
            append_str(&mut l, " - ");
            append_str(&mut l, c.description);
            assert(l@ =~= detail_line(*c));
            lines.push(string_from_chars(l.as_slice()));
            found = true;
            assert(commands@.take(i + 1).filter(pred) =~= commands@.take(i as int).filter(pred).push(*c));
            assert(lines@.map_values(|s: String| s@) =~= before.push(detail_line(*c)));
        } else {
            assert(commands@.take(i + 1).filter(pred) =~= commands@.take(i as int).filter(pred));
        }
        i += 1;
    }
    assert(commands@.take(commands@.len() as int) =~= commands@);
    if !found {
        let mut l: Vec<char> = Vec::new();
        append_str(&mut l, "No command found named '");
        append_str(&mut l, t);
        append_str(&mut l, "'");
        let ghost before = lines@.map_values(|s: String| s@);
        lines.push(string_from_chars(l.as_slice()));
        assert(lines@.map_values(|s: String| s@) =~= before.push(l@));
    }
    assert(lines@.map_values(|s: String| s@) =~= help_details(commands@, t@));
    lines
}

/// The overview part of [`help_lines`].
fn help_overview_lines(commands: &[ConsoleCommand]) -> (r: Vec<String>)
    ensures
        exists|names: Seq<Seq<char>>|
            parent_names(commands@, names) && r@.map_values(|s: String| s@) == help_overview(
                commands@,
                names,
            ),
{
    let parents = sorted_names(commands);
    let mut lines: Vec<String> = Vec::new();
    lines.push("--- Available Commands ---".to_owned());
    let ghost names = views(parents@);
    let mut p: usize = 0;
    while p < parents.len()
        invariant
            p <= parents@.len(),
            names == views(parents@),
            parent_names(commands@, names),
            lines@.map_values(|s: String| s@) == seq!["--- Available Commands ---"@] + names.take(
                p as int,
            ).map_values(|n: Seq<char>| overview_line(commands@, n)),
        decreases parents@.len() - p,
    {
        proof {
            assert(views(parents@)[p as int] == parents@[p as int]@);
            assert(views(parents@).contains(parents@[p as int]@));
        }
        let line = overview_line_exec(commands, parents[p].as_slice());
        let ghost before = lines@.map_values(|s: String| s@);
        lines.push(line);
        assert(names.take(p + 1) =~= names.take(p as int).push(parents@[p as int]@));
        assert(lines@.map_values(|s: String| s@) =~= before.push(line@));
        assert(lines@.map_values(|s: String| s@) =~= seq!["--- Available Commands ---"@] + names.take(
            p + 1,
        ).map_values(|n: Seq<char>| overview_line(commands@, n)));
        p += 1;
    }
    let ghost before = lines@.map_values(|s: String| s@);
    lines.push("\nUse 'help <command>' for more info.".to_owned());
    assert(names.take(parents@.len() as int) =~= names);
    assert(lines@.map_values(|s: String| s@) =~= help_overview(commands@, names));
    lines
}

/// `a` comes strictly before `b`.
pub open spec fn text_lt(a: Seq<char>, b: Seq<char>) -> bool {
    text_le(a, b) && a != b
}

/// The strict order of texts is transitive.
proof fn lemma_text_lt_transitive(a: Seq<char>, b: Seq<char>, c: Seq<char>)
    requires
        text_lt(a, b),
        text_lt(b, c),
    ensures
        text_lt(a, c),
{
    crate::text::lemma_text_le_transitive(a, b, c);
    if a == c {
        crate::text::lemma_text_le_antisymmetric(a, b);
    }
}

/// Whether `n` is the name of one of `cmds`.
pub open spec fn is_command_name(cmds: Seq<ConsoleCommand>, n: Seq<char>) -> bool {
    exists|k: int| 0 <= k < cmds.len() && (#[trigger] cmds[k]).name@ == n
}

/// The names of the commands, in increasing order and once each.
fn sorted_names(commands: &[ConsoleCommand]) -> (r: Vec<Vec<char>>)
    ensures
        parent_names(commands@, views(r@)),
{
    let mut out: Vec<Vec<char>> = Vec::new();
    let mut i: usize = 0;
    while i < commands.len()
        invariant
            i <= commands@.len(),
            forall|a: int, b: int| 0 <= a < b < out@.len() ==> text_lt(#[trigger] out@[a]@, #[trigger] out@[b]@),
            forall|n: Seq<char>| views(out@).contains(n) <==> is_command_name(commands@.take(i as int), n),
        decreases commands@.len() - i,
    {
        let x = chars_of(commands[i].name);
        let mut k: usize = 0;
        let mut dup = false;
        while k < out.len()
            invariant_except_break
                !dup,
            invariant
                k <= out@.len(),
                forall|j: int| 0 <= j < k ==> text_lt((#[trigger] out@[j])@, x@),
            ensures
                k <= out@.len(),
                forall|j: int| 0 <= j < k ==> text_lt((#[trigger] out@[j])@, x@),
                dup ==> k < out@.len() && out@[k as int]@ == x@,
                !dup && k < out@.len() ==> text_lt(x@, out@[k as int]@),
            decreases out@.len() - k,
        {
            if chars_equal(out[k].as_slice(), x.as_slice()) {
                dup = true;
                break;
            }
            if !text_le_exec(out[k].as_slice(), x.as_slice()) {
                proof {
                    lemma_text_le_total(out@[k as int]@, x@);
                }
                break;
            }
            k += 1;
        }
        let ghost before = out@;
        let ghost seen = commands@.take(i as int);
        let ghost now = commands@.take(i + 1);
        proof {
            assert(now =~= seen.push(commands@[i as int]));
            assert forall|n: Seq<char>| is_command_name(now, n) <==> (is_command_name(seen, n) || n == x@) by {
                if is_command_name(now, n) {
                    let q = choose|q: int| 0 <= q < now.len() && (#[trigger] now[q]).name@ == n;
                    if q < i {
                        assert(seen[q] == now[q]);
                    }
                }
                if is_command_name(seen, n) {
                    let q = choose|q: int| 0 <= q < seen.len() && (#[trigger] seen[q]).name@ == n;
                    assert(now[q] == seen[q]);
                }
                if n == x@ {
                    assert(now[i as int].name@ == n);
                }
            }
        }
        if dup {
            proof {
                assert forall|n: Seq<char>| views(out@).contains(n) <==> is_command_name(now, n) by {
                    if n == x@ {
                        assert(views(out@)[k as int] == n);
                    }
                }
            }
        } else {
            out.insert(k, x);
            proof {
                assert forall|a: int, b: int| 0 <= a < b < out@.len() implies text_lt(
                    #[trigger] out@[a]@,
                    #[trigger] out@[b]@,
                ) by {
                    if b < k {
                        assert(out@[a] == before[a] && out@[b] == before[b]);
                        assert(text_lt(before[a]@, before[b]@));
                    } else if b == k {
                        assert(out@[a] == before[a]);
                    } else if a == k {
                        assert(out@[b] == before[b - 1]);
                        if b - 1 > k {
                            assert(text_lt(before[k as int]@, before[b - 1]@));
                            lemma_text_lt_transitive(x@, before[k as int]@, before[b - 1]@);
                        }
                    } else if a < k {
                        assert(out@[a] == before[a] && out@[b] == before[b - 1]);
                        assert(text_lt(before[a]@, x@));
                        if b - 1 > k {
                            assert(text_lt(before[k as int]@, before[b - 1]@));
                            lemma_text_lt_transitive(x@, before[k as int]@, before[b - 1]@);
                        }
                        lemma_text_lt_transitive(before[a]@, x@, before[b - 1]@);
                    } else {
                        assert(out@[a] == before[a - 1] && out@[b] == before[b - 1]);
                        assert(text_lt(before[a - 1]@, before[b - 1]@));
                    }
                }
                assert(views(out@) =~= views(before).insert(k as int, x@));
                assert forall|n: Seq<char>| views(out@).contains(n) <==> is_command_name(now, n) by {
                    if views(out@).contains(n) {
                        let j = choose|j: int| 0 <= j < views(out@).len() && views(out@)[j] == n;
                        if j < k {
                            assert(views(before)[j] == n);
                        } else if j > k {
                            assert(views(before)[j - 1] == n);
                        }
                    }
                    if views(before).contains(n) {
                        let j = choose|j: int| 0 <= j < views(before).len() && views(before)[j] == n;
                        if j < k {
                            assert(views(out@)[j] == n);
                        } else {
                            assert(views(out@)[j + 1] == n);
                        }
                    }
                    if n == x@ {
                        assert(views(out@)[k as int] == n);
                    }
                }
            }
        }
        i += 1;
    }
    assert(commands@.take(commands@.len() as int) =~= commands@);
    assert forall|a: int, b: int| 0 <= a < b < views(out@).len() implies text_le(
        views(out@)[a],
        views(out@)[b],
    ) && views(out@)[a] != views(out@)[b] by {
        assert(text_lt(out@[a]@, out@[b]@));
    }
    out
}

/// The subcommands of the commands named `parent`, in order.
fn subs_named(commands: &[ConsoleCommand], parent: &[char]) -> (r: Vec<&'static str>)
    ensures
        r@.map_values(|s: &str| s@) == subs_of(commands@, parent@),
{
    let ghost pred = |c: ConsoleCommand| c.name@ == parent@ && c.subcommand is Some;
    let mut subs: Vec<&'static str> = Vec::new();
    let mut i: usize = 0;
    while i < commands.len()
        invariant
            i <= commands@.len(),
            pred == (|c: ConsoleCommand| c.name@ == parent@ && c.subcommand is Some),
            subs@.map_values(|s: &str| s@) == commands@.take(i as int).filter(pred).map_values(
                |c: ConsoleCommand| c.subcommand->0@,
            ),
        decreases commands@.len() - i,
    {
        let c = &commands[i];
        let name = chars_of(c.name);
        let same = chars_equal(name.as_slice(), parent);
        let ghost before = subs@.map_values(|s: &str| s@);
        assert(commands@.take(i + 1).drop_last() =~= commands@.take(i as int));
        reveal_with_fuel(Seq::<_>::filter, 1);
        match c.subcommand {
            Some(sub) => {
                if same {
                    subs.push(sub);
                    assert(commands@.take(i + 1).filter(pred) =~= commands@.take(i as int).filter(
                        pred,
                    ).push(*c));
                    assert(subs@.map_values(|s: &str| s@) =~= before.push(sub@));
                } else {
                    assert(commands@.take(i + 1).filter(pred) =~= commands@.take(i as int).filter(
                        pred,
                    ));
                }
            },
            None => {
                assert(commands@.take(i + 1).filter(pred) =~= commands@.take(i as int).filter(pred));
            },
        }
        i += 1;
    }
    assert(commands@.take(commands@.len() as int) =~= commands@);
    subs
}

/// The index of the first command named `parent`.
fn first_index_named(commands: &[ConsoleCommand], parent: &[char]) -> (r: usize)
    requires
        is_command_name(commands@, parent@),
    ensures
        r < commands@.len(),
        first_named(commands@, parent@) == commands@[r as int],
{
    let mut i: usize = 0;
    while i < commands.len()
        invariant
            i <= commands@.len(),
            is_command_name(commands@, parent@),
            forall|j: int| 0 <= j < i ==> (#[trigger] commands@[j]).name@ != parent@,
        decreases commands@.len() - i,
    {
        let name = chars_of(commands[i].name);
        if chars_equal(name.as_slice(), parent) {
            proof {
                lemma_first_named(commands@, parent@, i as int);
            }
            return i;
        }
        i += 1;
    }
    proof {
        let k = choose|k: int| 0 <= k < commands@.len() && (#[trigger] commands@[k]).name@ == parent@;
        assert(commands@[k].name@ != parent@);
    }
    0
}

/// Builds the overview line of the commands named `parent` (see
/// [`overview_line`]).
fn overview_line_exec(commands: &[ConsoleCommand], parent: &[char]) -> (r: String)
    requires
        is_command_name(commands@, parent@),
    ensures
        r@ == overview_line(commands@, parent@),
{
    let subs = subs_named(commands, parent);
    let ghost sv = subs@.map_values(|s: &str| s@);
    let mut out: Vec<char> = Vec::new();
    append_str(&mut out, "  ");
    if subs.len() == 0 {
        let f = first_index_named(commands, parent);
        let c = &commands[f];
        let name = chars_of(c.name);
        push_padded(&mut out, name.as_slice(), 15);
        append_str(&mut out, " ");
        let params = chars_of(c.params);
        push_padded(&mut out, params.as_slice(), 25);
        append_str(&mut out, " - ");
        append_str(&mut out, c.description);
        assert(out@ =~= overview_line(commands@, parent@));
    } else {
        push_padded(&mut out, parent, 15);
        append_str(&mut out, " [subs: ");
        let ghost head = out@;
        let mut j: usize = 0;
        assert(sv.take(0) =~= Seq::<Seq<char>>::empty());
        while j < subs.len()
            invariant
                j <= subs@.len(),
                sv == subs@.map_values(|s: &str| s@),
                out@ == head + join_comma(sv.take(j as int)),
            decreases subs@.len() - j,
        {
            if j > 0 {
                append_str(&mut out, ", ");
            }
            append_str(&mut out, subs[j]);
            assert(sv.take(j + 1).drop_last() =~= sv.take(j as int));
            proof {
                if j == 0 {
                    assert(sv.take(1) =~= seq![sv[0]]);
                }
            }
            j += 1;
        }
        append_str(&mut out, "]");
        assert(sv.take(subs@.len() as int) =~= sv);
        assert(out@ =~= overview_line(commands@, parent@));
    }
    string_from_chars(out.as_slice())
}

/// The first command named `n` is the one at the first index where the name
/// occurs.
proof fn lemma_first_named(cmds: Seq<ConsoleCommand>, n: Seq<char>, f: int)
    requires
        0 <= f < cmds.len(),
        cmds[f].name@ == n,
        forall|j: int| 0 <= j < f ==> (#[trigger] cmds[j]).name@ != n,
    ensures
        first_named(cmds, n) == cmds[f],
    decreases f,
{
    if f > 0 {
        assert forall|j: int| 0 <= j < f - 1 implies (#[trigger] cmds.drop_first()[j]).name@ != n by {
            assert(cmds.drop_first()[j] == cmds[j + 1]);
        }
        lemma_first_named(cmds.drop_first(), n, f - 1);
    }
}

} // verus!

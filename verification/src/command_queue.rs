use vstd::prelude::*;
use std::collections::VecDeque;
use crate::commands::{pad_right, push_padded, str_list_contains};
use crate::text::{
    append_str, chars_of, chars_equal, joined, text_is, trim, trim_chars, lowercase, split_whitespace, split_ws, string_from_chars, to_lowercase,
    to_uppercase, uppercase, views,
};

verus! {

/// A console command handled by the plugin: its name, aliases and help text
/// (parameter name, description).
pub struct ConsoleCommandHandler {
    pub name: &'static str,
    pub aliases: &'static [&'static str],
    pub description: &'static str,
    pub field_description: &'static [(&'static str, &'static str)],
}

/// Whether the handler `h` answers the command word `w`.
pub open spec fn handler_matches(h: ConsoleCommandHandler, w: Seq<char>) -> bool {
    h.name@ == w || str_list_contains(h.aliases@, w)
}

/// The index of the first of `hs` that answers `w`.
pub open spec fn first_matching_handler(hs: Seq<ConsoleCommandHandler>, w: Seq<char>) -> Option<int> {
    if exists|i: int| 0 <= i < hs.len() && handler_matches(#[trigger] hs[i], w) {
        Some(
            choose|i: int|
                0 <= i < hs.len() && handler_matches(hs[i], w) && forall|j: int|
                    0 <= j < i ==> !handler_matches(#[trigger] hs[j], w),
        )
    } else {
        None
    }
}

/// A handler chosen for an input line, with the words after the command.
pub struct HandlerDispatch {
    pub index: usize,
    pub args: Vec<String>,
}

/// Picks the handler for the input line `input`: the first of `handlers` whose
/// name or an alias is the lower-cased first word. The arguments are the
/// remaining words. Returns `None` for an empty line or an unknown command.
pub fn dispatch_command(handlers: &[ConsoleCommandHandler], input: &str) -> (r: Option<HandlerDispatch>)
    ensures
        ({
            let parts = split_ws(input@);
            match r {
                None => parts.len() == 0 || first_matching_handler(handlers@, lowercase(parts[0])) is None,
                Some(d) => {
                    &&& parts.len() > 0
                    &&& first_matching_handler(handlers@, lowercase(parts[0])) == Some(d.index as int)
                    &&& d.args@.map_values(|s: String| s@) == parts.skip(1)
                },
            }
        }),
{
    let cs = chars_of(input);
    let parts = split_whitespace(cs.as_slice());
    if parts.len() == 0 {
        return None;
    }
    let first = string_from_chars(parts[0].as_slice());
    let lower_s = to_lowercase(first.as_str());
    let lower = chars_of(lower_s.as_str());
    let ghost w = lowercase(split_ws(input@)[0]);
    assert(lower@ == w);
    let mut i: usize = 0;
    while i < handlers.len()
        invariant
            i <= handlers@.len(),
            lower@ == w,
            w == lowercase(split_ws(input@)[0]),
            parts@.len() > 0,
            views(parts@) == split_ws(input@),
            forall|j: int| 0 <= j < i ==> !handler_matches(#[trigger] handlers@[j], w),
        decreases handlers@.len() - i,
    {
        let name = chars_of(handlers[i].name);
        let aliases = handlers[i].aliases;
        let mut found = chars_equal(name.as_slice(), lower.as_slice());
        let mut k: usize = 0;
        while !found && k < aliases.len()
            invariant
                k <= aliases@.len(),
                lower@ == w,
                found ==> handler_matches(handlers@[i as int], w),
                !found ==> name@ != w && forall|j: int| 0 <= j < k ==> (#[trigger] aliases@[j])@ != w,
                aliases@ == handlers@[i as int].aliases@,
                name@ == handlers@[i as int].name@,
            decreases aliases@.len() - k,
        {
            let a = chars_of(aliases[k]);
            if chars_equal(a.as_slice(), lower.as_slice()) {
                found = true;
            }
            k += 1;
        }
        if found {
            let mut args: Vec<String> = Vec::new();
            let mut k2: usize = 1;
            while k2 < parts.len()
                invariant
                    1 <= k2 <= parts@.len(),
                    args@.map_values(|s: String| s@) =~= views(parts@).subrange(1, k2 as int),
                decreases parts@.len() - k2,
            {
                let ghost before = args@.map_values(|s: String| s@);
                args.push(string_from_chars(parts[k2].as_slice()));
                assert(args@.map_values(|s: String| s@) =~= before.push(parts@[k2 as int]@));
                k2 += 1;
            }
            proof {
                assert(handler_matches(handlers@[i as int], w));
                assert(first_matching_handler(handlers@, w) is Some);
                assert(args@.map_values(|s: String| s@) =~= views(parts@).skip(1));
            }
            return Some(HandlerDispatch { index: i, args });
        }
        i += 1;
    }
    None
}

/// The title line of the console help menu.
pub open spec fn help_menu_title() -> Seq<char> {
    "\n--- Available Console Commands ---"@
}

/// The line that closes each entry of the console help menu.
pub open spec fn help_menu_separator() -> Seq<char> {
    "----------------------------------"@
}

/// The texts of a list of string slices.
pub open spec fn str_views(v: Seq<&str>) -> Seq<Seq<char>> {
    v.map_values(|s: &str| s@)
}

/// ` (Aliases: a, b)` for a handler with aliases, nothing otherwise.
pub open spec fn alias_suffix(aliases: Seq<&str>) -> Seq<char> {
    if aliases.len() == 0 {
        Seq::empty()
    } else {
        " (Aliases: "@ + joined(str_views(aliases), ", "@) + ")"@
    }
}

/// The help line of a parameter: its name padded to ten characters, then its
/// description.
pub open spec fn parameter_line(p: (&str, &str)) -> Seq<char> {
    "    - "@ + pad_right(p.0@, 10) + " : "@ + p.1@
}

/// The help lines of the handler `h` whose name, upper-cased, is
/// `upper_name`: the name with its aliases, the description, the parameters
/// when it has any, and a separator.
pub open spec fn help_entry(upper_name: Seq<char>, h: ConsoleCommandHandler) -> Seq<Seq<char>> {
    seq!["> "@ + upper_name + alias_suffix(h.aliases@), "  Description: "@ + h.description@] + (if h.field_description@.len()
        == 0 {
        Seq::empty()
    } else {
        seq!["  Parameters:"@] + h.field_description@.map_values(|p: (&str, &str)| parameter_line(p))
    }) + seq![help_menu_separator()]
}

/// The console help menu of `hs`: the title, then the entry of each handler
/// in order.
pub open spec fn help_menu(hs: Seq<ConsoleCommandHandler>) -> Seq<Seq<char>>
    decreases hs.len(),
{
    if hs.len() == 0 {
        seq![help_menu_title()]
    } else {
        help_menu(hs.drop_last()) + help_entry(uppercase(hs.last().name@), hs.last())
    }
}

/// The help lines of the handler `h`, whose upper-cased name is `upper_name`
/// (see [`help_entry`]).
pub fn help_entry_lines(upper_name: &str, h: &ConsoleCommandHandler) -> (r: Vec<String>)
    ensures
        r@.map_values(|s: String| s@) == help_entry(upper_name@, *h),
{
    let mut lines: Vec<String> = Vec::new();
    let mut first: Vec<char> = Vec::new();
    append_str(&mut first, "> ");
    append_str(&mut first, upper_name);
    let ghost aliases = str_views(h.aliases@);
    if h.aliases.len() > 0 {
        append_str(&mut first, " (Aliases: ");
        let ghost start = first@;
        let mut i: usize = 0;
        while i < h.aliases.len()
            invariant
                i <= h.aliases@.len(),
                aliases == str_views(h.aliases@),
                first@ == start + joined(aliases.take(i as int), ", "@),
            decreases h.aliases@.len() - i,
        {
            if i > 0 {
                append_str(&mut first, ", ");
            }
            append_str(&mut first, h.aliases[i]);
            proof {
                assert(aliases.take(i + 1).drop_last() =~= aliases.take(i as int));
                if i == 0 {
                    assert(aliases.take(1) =~= seq![aliases[0]]);
                }
                assert(first@ =~= start + joined(aliases.take(i + 1), ", "@));
            }
            i += 1;
        }
        assert(aliases.take(h.aliases@.len() as int) =~= aliases);
        append_str(&mut first, ")");
    }
    proof {
        reveal_strlit("> ");
        reveal_strlit(" (Aliases: ");
        reveal_strlit(")");
    }
    assert(first@ =~= "> "@ + upper_name@ + alias_suffix(h.aliases@));
    lines.push(string_from_chars(first.as_slice()));
    let mut second: Vec<char> = Vec::new();
    append_str(&mut second, "  Description: ");
    append_str(&mut second, h.description);
    lines.push(string_from_chars(second.as_slice()));
    let ghost head = seq!["> "@ + upper_name@ + alias_suffix(h.aliases@), "  Description: "@ + h.description@];
    assert(lines@.map_values(|s: String| s@) =~= head);
    let ghost params = h.field_description@.map_values(|p: (&str, &str)| parameter_line(p));
    if h.field_description.len() > 0 {
        lines.push("  Parameters:".to_owned());
        let mut j: usize = 0;
        while j < h.field_description.len()
            invariant
                j <= h.field_description@.len(),
                params == h.field_description@.map_values(|p: (&str, &str)| parameter_line(p)),
                lines@.map_values(|s: String| s@) == head + seq!["  Parameters:"@] + params.take(j as int),
            decreases h.field_description@.len() - j,
        {
            let (field, desc) = h.field_description[j];
            let mut line: Vec<char> = Vec::new();
            append_str(&mut line, "    - ");
            let fc = chars_of(field);
            push_padded(&mut line, fc.as_slice(), 10);
            append_str(&mut line, " : ");
            append_str(&mut line, desc);
            let ghost before = lines@.map_values(|s: String| s@);
            lines.push(string_from_chars(line.as_slice()));
            proof {
                assert(line@ =~= parameter_line(h.field_description@[j as int]));
                assert(params.take(j + 1) =~= params.take(j as int).push(params[j as int]));
                assert(lines@.map_values(|s: String| s@) =~= before.push(line@));
            }
            j += 1;
        }
        assert(params.take(h.field_description@.len() as int) =~= params);
    }
    let ghost before = lines@.map_values(|s: String| s@);
    lines.push("----------------------------------".to_owned());
    assert(lines@.map_values(|s: String| s@) =~= before.push(help_menu_separator()));
    assert(lines@.map_values(|s: String| s@) =~= help_entry(upper_name@, *h));
    lines
}

/// The console help menu of `handlers`, one string per printed line (see
/// [`help_menu`]).
pub fn handle_help(handlers: &[ConsoleCommandHandler]) -> (r: Vec<String>)
    ensures
        r@.map_values(|s: String| s@) == help_menu(handlers@),
{
    let mut lines: Vec<String> = vec!["\n--- Available Console Commands ---".to_owned()];
    assert(lines@.map_values(|s: String| s@) =~= help_menu(handlers@.take(0)));
    let mut i: usize = 0;
    while i < handlers.len()
        invariant
            i <= handlers@.len(),
            lines@.map_values(|s: String| s@) == help_menu(handlers@.take(i as int)),
        decreases handlers@.len() - i,
    {
        let upper = to_uppercase(handlers[i].name);
        let mut entry = help_entry_lines(upper.as_str(), &handlers[i]);
        let ghost before = lines@.map_values(|s: String| s@);
        let ghost added = entry@.map_values(|s: String| s@);
        lines.append(&mut entry);
        proof {
            assert(handlers@.take(i + 1).drop_last() =~= handlers@.take(i as int));
            assert(lines@.map_values(|s: String| s@) =~= before + added);
        }
        i += 1;
    }
    assert(handlers@.take(handlers@.len() as int) =~= handlers@);
    lines
}

/// What the developer console does with a line typed on standard input.
#[derive(Debug, PartialEq, Eq)]
pub enum ConsoleLineAction {
    /// `findobj`: look an object up.
    FindObject,
    /// `listmods`: list the mods the asset registry knows.
    ListMods,
    /// Anything else: kept, trimmed, as the last command for the game thread.
    Record(String),
}

/// The action for the console line `line` once trimmed: `findobj` and
/// `listmods` are the console's own commands; any other line is recorded.
pub open spec fn console_line_action(line: Seq<char>) -> ConsoleLineActionView {
    if trim(line) == "findobj"@ {
        ConsoleLineActionView::FindObject
    } else if trim(line) == "listmods"@ {
        ConsoleLineActionView::ListMods
    } else {
        ConsoleLineActionView::Record(trim(line))
    }
}

/// A console line's action, with the recorded text as characters.
pub enum ConsoleLineActionView {
    FindObject,
    ListMods,
    Record(Seq<char>),
}

impl ConsoleLineAction {
    /// The action with the recorded text as characters.
    pub open spec fn view_action(self) -> ConsoleLineActionView {
        match self {
            ConsoleLineAction::FindObject => ConsoleLineActionView::FindObject,
            ConsoleLineAction::ListMods => ConsoleLineActionView::ListMods,
            ConsoleLineAction::Record(s) => ConsoleLineActionView::Record(s@),
        }
    }
}

/// Decides what the developer console does with the line `line` (see
/// [`console_line_action`]).
pub fn console_line(line: &str) -> (r: ConsoleLineAction)
    ensures
        r.view_action() == console_line_action(line@),
{
    let cs = chars_of(line);
    let t = trim_chars(cs.as_slice());
    if text_is(t.as_slice(), "findobj") {
        ConsoleLineAction::FindObject
    } else if text_is(t.as_slice(), "listmods") {
        ConsoleLineAction::ListMods
    } else {
        ConsoleLineAction::Record(string_from_chars(t.as_slice()))
    }
}

/// Console lines waiting to run on the game thread, oldest first.
pub struct CommandManager {
    queue: VecDeque<String>,
}

impl View for CommandManager {
    type V = Seq<Seq<char>>;

    closed spec fn view(&self) -> Seq<Seq<char>> {
        self.queue@.map_values(|s: String| s@)
    }
}

impl CommandManager {
    /// An empty queue.
    pub fn new() -> (m: CommandManager)
        ensures
            m@ == Seq::<Seq<char>>::empty(),
    {
        let m = CommandManager { queue: VecDeque::new() };
        assert(m@ =~= Seq::<Seq<char>>::empty());
        m
    }

    /// Queues `cmd` behind the waiting lines; an empty line is ignored.
    pub fn push(&mut self, cmd: String)
        ensures
            final(self)@ == if cmd@.len() == 0 {
                old(self)@
            } else {
                old(self)@.push(cmd@)
            },
    {
        if !cmd.as_str().is_empty() {
            let ghost c = cmd@;
            self.queue.push_back(cmd);
            assert(self@ =~= old(self)@.push(c));
        }
    }

    /// Takes the oldest waiting line, if any.
    pub fn pop(&mut self) -> (r: Option<String>)
        ensures
            match r {
                Some(c) => old(self)@.len() > 0 && c@ == old(self)@[0] && final(self)@ == old(self)@.drop_first(),
                None => old(self)@.len() == 0 && final(self)@ == old(self)@,
            },
    {
        let r = self.queue.pop_front();
        proof {
            if r is Some {
                assert(self@ =~= old(self)@.drop_first());
            }
        }
        r
    }
}

/// Lines come out of the queue in the order they went in: queuing a
/// non-empty line behind `q` and taking lines out returns the lines of `q`
/// first and then the new one.
pub proof fn lemma_command_queue_fifo(q: Seq<Seq<char>>, cmd: Seq<char>)
    requires
        cmd.len() > 0,
    ensures
        q.len() > 0 ==> q.push(cmd)[0] == q[0] && q.push(cmd).drop_first() == q.drop_first().push(cmd),
        q.len() == 0 ==> q.push(cmd)[0] == cmd && q.push(cmd).drop_first() == q,
{
    if q.len() > 0 {
        assert(q.push(cmd).drop_first() =~= q.drop_first().push(cmd));
    } else {
        assert(q.push(cmd).drop_first() =~= q);
    }
}

} // verus!

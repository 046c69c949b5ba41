use vstd::prelude::*;
use crate::notifications::GameChatMessage;
use crate::chat_type::{EChatType, chat_type_from_index};
use crate::text::{
    chars_of, contains_seq, contains_text, parse_decimal, parse_unsigned, string_from_chars, trim,
    trim_chars,
};

verus! {

/// The text `censor::Censor::Standard` makes of `text`.
pub uninterp spec fn standard_censored(text: Seq<char>) -> Seq<char>;

/// Masks swear words of `text` with `*` (`censor::Censor::Standard.censor`):
/// the result has as many characters as `text`, each of them either the
/// character of `text` at that place or `*`. Which characters are masked is left to the word
/// lists of the `censor` crate, which this contract only names.
#[verifier::external_body]
fn censor_standard(text: &str) -> (r: String)
    ensures
        r@ == standard_censored(text@),
        r@.len() == text@.len(),
        forall|i: int| 0 <= i < text@.len() ==> r@[i] == text@[i] || r@[i] == '*',
{
    censor::Censor::Standard.censor(text)
}

/// Masks the swear words of a chat text.
pub fn sanitize_text(input: &str) -> (r: String)
    ensures
        r@ == standard_censored(input@),
        r@.len() == input@.len(),
        forall|i: int| 0 <= i < input@.len() ==> r@[i] == input@[i] || r@[i] == '*',
{
    censor_standard(input)
}

impl GameChatMessage {
    /// Masks the swear words of the line and of the sender's name.
    pub fn sanitize(&mut self)
        ensures
            final(self).message@ == standard_censored(old(self).message@),
            final(self).sender@ == standard_censored(old(self).sender@),
            final(self).chat_type == old(self).chat_type,
    {
        self.message = censor_standard(self.message.as_str());
        self.sender = censor_standard(self.sender.as_str());
    }
}

/// The groups of the first match of the regular expression `pattern` in
/// `text` (group 0 is the whole match; a group that took no part is `None`),
/// or `None` when there is no match or the pattern is not valid.
pub uninterp spec fn regex_groups(pattern: Seq<char>, text: Seq<char>) -> Option<Seq<Option<Seq<char>>>>;

/// The views of a list of optional strings.
pub open spec fn group_views(v: Seq<Option<String>>) -> Seq<Option<Seq<char>>> {
    v.map_values(|o: Option<String>| match o {
        Some(s) => Some(s@),
        None => None,
    })
}

/// Runs the regular expression `pattern` on `text` with the `regex` crate and
/// returns the groups of the first match. What matches is left to the crate
/// and only named here; as its documentation says, a match always has group 0.
#[verifier::external_body]
fn regex_captures(pattern: &str, text: &str) -> (r: Option<Vec<Option<String>>>)
    ensures
        match r {
            Some(v) => regex_groups(pattern@, text@) == Some(group_views(v@)) && v@.len() > 0 && v@[0] is Some,
            None => regex_groups(pattern@, text@) is None,
        },
{
    let re = regex::Regex::new(pattern).ok()?;
    let caps = re.captures(text)?;
    Some(caps.iter().map(|m| m.map(|m| m.as_str().to_string())).collect())
}

/// The pattern of a game chat line: `<name> <<channel>>: <message>`.
pub open spec fn chat_line_pattern() -> Seq<char> {
    "^(.*?)\\s+<(\\d+)>:\\s+(.*)$"@
}

/// A chat line read from the game log.
pub struct ChatMessage {
    pub name: String,
    pub channel: u32,
    pub message: String,
}

/// The chat message that the groups of a chat line match give: the trimmed
/// name (group 1), the channel number (group 2, read as a `u32`) and the
/// message (group 3); none when a group is missing or the number does not
/// read.
pub open spec fn chat_message_of(groups: Seq<Option<Seq<char>>>) -> Option<(Seq<char>, u32, Seq<char>)> {
    if groups.len() > 3 && groups[1] is Some && groups[2] is Some && groups[3] is Some {
        match parse_unsigned(groups[2]->0, u32::MAX as nat) {
            Some(c) => Some((trim(groups[1]->0), c as u32, groups[3]->0)),
            None => None,
        }
    } else {
        None
    }
}

/// Builds the chat message from the groups of a chat line match.
pub fn chat_message_from_groups(groups: &Vec<Option<String>>) -> (r: Option<ChatMessage>)
    ensures
        match r {
            Some(m) => chat_message_of(group_views(groups@)) == Some((m.name@, m.channel, m.message@)),
            None => chat_message_of(group_views(groups@)) is None,
        },
{
    if groups.len() <= 3 {
        return None;
    }
    let name = match &groups[1] {
        Some(n) => n,
        None => return None,
    };
    let chan = match &groups[2] {
        Some(c) => c,
        None => return None,
    };
    let msg = match &groups[3] {
        Some(m) => m,
        None => return None,
    };
    let cc = chars_of(chan.as_str());
    let channel = match parse_decimal(cc.as_slice(), 0xFFFF_FFFF) {
        Some(v) => v as u32,
        None => return None,
    };
    let nc = chars_of(name.as_str());
    let trimmed = trim_chars(nc.as_slice());
    Some(ChatMessage { name: string_from_chars(trimmed.as_slice()), channel, message: msg.clone() })
}

/// Reads a chat line of the game log (`<name> <<channel>>: <message>`).
pub fn parse_chat_line(line: &str) -> (r: Option<ChatMessage>)
    ensures
        match regex_groups(chat_line_pattern(), line@) {
            Some(g) => match r {
                Some(m) => chat_message_of(g) == Some((m.name@, m.channel, m.message@)),
                None => chat_message_of(g) is None,
            },
            None => r is None,
        },
{
    let groups = regex_captures("^(.*?)\\s+<(\\d+)>:\\s+(.*)$", line);
    match groups {
        Some(g) => chat_message_from_groups(&g),
        None => None,
    }
}

/// The pattern of a chat message line of the game: `<<type>>: <text>`.
pub open spec fn msg_line_pattern() -> Seq<char> {
    "<(\\d+)>: (.+)"@
}

/// The chat type number (read as a `u8`) and the text that the groups of a
/// message line match give; none when a group is missing or the number does
/// not read as a `u8`.
pub open spec fn msg_line_parts(groups: Seq<Option<Seq<char>>>) -> Option<(nat, Seq<char>)> {
    if groups.len() > 2 && groups[1] is Some && groups[2] is Some {
        match parse_unsigned(groups[1]->0, 255) {
            Some(v) => Some((v, groups[2]->0)),
            None => None,
        }
    } else {
        None
    }
}

/// Whether the chat type number of the groups, when they have one, names a
/// chat type.
pub open spec fn msg_groups_typed(groups: Seq<Option<Seq<char>>>) -> bool {
    match msg_line_parts(groups) {
        Some((v, _)) => chat_type_from_index(v as u8) is Some,
        None => true,
    }
}

/// Whether the chat type number of `line`, when it has one, names a chat type.
pub open spec fn msg_line_typed(line: Seq<char>) -> bool {
    match regex_groups(msg_line_pattern(), line) {
        Some(g) => msg_groups_typed(g),
        None => true,
    }
}

/// The chat type number of message-line groups, read as a `u8`.
fn msg_type_number(groups: &Vec<Option<String>>) -> (r: Option<u8>)
    ensures
        match msg_line_parts(group_views(groups@)) {
            Some((v, _)) => r == Some(v as u8) && v <= 255,
            None => r is None,
        },
{
    if groups.len() <= 2 {
        return None;
    }
    let num = match &groups[1] {
        Some(n) => n,
        None => return None,
    };
    match &groups[2] {
        Some(_) => {},
        None => return None,
    }
    let nc = chars_of(num.as_str());
    match parse_decimal(nc.as_slice(), 255) {
        Some(v) => Some(v as u8),
        None => None,
    }
}

/// Builds the chat type and text from the groups of a message line match.
pub fn msg_line_from_groups(groups: &Vec<Option<String>>) -> (r: Option<(EChatType, String)>)
    requires
        msg_groups_typed(group_views(groups@)),
    ensures
        match msg_line_parts(group_views(groups@)) {
            Some((v, text)) => r matches Some((t, s)) && chat_type_from_index(v as u8) == Some(t)
                && s@ == text,
            None => r is None,
        },
{
    let v = match msg_type_number(groups) {
        Some(v) => v,
        None => return None,
    };
    let t = match EChatType::try_from(v) {
        Ok(t) => t,
        Err(()) => return None,
    };
    match &groups[2] {
        Some(text) => Some((t, text.clone())),
        None => None,
    }
}

/// Reads a chat message line of the game (`<<type>>: <text>`): its chat type
/// and text. The type number of a matching line must name a chat type.
pub fn parse_msg_line(line: &str) -> (r: Option<(EChatType, String)>)
    requires
        msg_line_typed(line@),
    ensures
        match regex_groups(msg_line_pattern(), line@) {
            Some(g) => match msg_line_parts(g) {
                Some((v, text)) => r matches Some((t, s)) && chat_type_from_index(v as u8) == Some(
                    t,
                ) && s@ == text,
                None => r is None,
            },
            None => r is None,
        },
{
    match regex_captures("<(\\d+)>: (.+)", line) {
        Some(g) => msg_line_from_groups(&g),
        None => None,
    }
}

/// Reads a chat message line like [`parse_msg_line`], and gives `None` for a
/// line whose type number names no chat type.
pub fn try_parse_msg_line(line: &str) -> (r: Option<(EChatType, String)>)
    ensures
        !msg_line_typed(line@) ==> r is None,
        msg_line_typed(line@) ==> match regex_groups(msg_line_pattern(), line@) {
            Some(g) => match msg_line_parts(g) {
                Some((v, text)) => r matches Some((t, s)) && chat_type_from_index(v as u8) == Some(
                    t,
                ) && s@ == text,
                None => r is None,
            },
            None => r is None,
        },
{
    match regex_captures("<(\\d+)>: (.+)", line) {
        Some(g) => {
            match msg_type_number(&g) {
                Some(v) => {
                    match EChatType::try_from(v) {
                        Ok(_) => parse_msg_line(line),
                        Err(()) => None,
                    }
                },
                None => parse_msg_line(line),
            }
        },
        None => parse_msg_line(line),
    }
}

/// Engine script messages that are not worth logging.
pub open spec fn shamed_messages() -> Seq<Seq<char>> {
    seq![
        "/Game/Maps/Frontend/CIT/FE_Citadel_Atmospherics.FE_Citadel_Atmospherics_C"@,
        "Divide by zero: ProjectVectorOnToVector with zero Target vector"@,
        "A null object was passed as a world context object to UEngine::GetWorldFromContextObject()."@,
        "/Game/Maps/Frontend/Blueprints/Customization_Rotation.Customization_Rotation_C"@,
    ]
}

/// What is logged of an engine script message: nothing when it holds one of
/// the [`shamed_messages`]; otherwise the message, on a line of its own when it
/// spans several lines.
pub open spec fn kismet_line(message: Seq<char>) -> Option<Seq<char>> {
    if exists|k: int| 0 <= k < shamed_messages().len() && contains_seq(message, #[trigger] shamed_messages()[k]) {
        None
    } else if message.contains('\n') {
        Some(seq!['\n'] + message)
    } else {
        Some(message)
    }
}

/// The line to log for an engine script message (see [`kismet_line`]).
pub fn kismet_log_line(message: &str) -> (r: Option<String>)
    ensures
        match kismet_line(message@) {
            Some(l) => r matches Some(s) && s@ == l,
            None => r is None,
        },
{
    let m = chars_of(message);
    let shame = [
        "/Game/Maps/Frontend/CIT/FE_Citadel_Atmospherics.FE_Citadel_Atmospherics_C",
        "Divide by zero: ProjectVectorOnToVector with zero Target vector",
        "A null object was passed as a world context object to UEngine::GetWorldFromContextObject().",
        "/Game/Maps/Frontend/Blueprints/Customization_Rotation.Customization_Rotation_C",
    ];
    assert(shame@.map_values(|x: &str| x@) =~= shamed_messages());
    let mut k: usize = 0;
    while k < 4
        invariant
            k <= 4,
            m@ == message@,
            shame@.map_values(|x: &str| x@) == shamed_messages(),
            forall|j: int| 0 <= j < k ==> !contains_seq(m@, #[trigger] shamed_messages()[j]),
        decreases 4 - k,
    {
        let pc = chars_of(shame[k]);
        assert(shamed_messages()[k as int] == shame@[k as int]@);
        if contains_text(m.as_slice(), pc.as_slice()) {
            return None;
        }
        k += 1;
    }
    let mut has_newline = false;
    let mut i: usize = 0;
    while i < m.len()
        invariant
            i <= m@.len(),
            has_newline == exists|j: int| 0 <= j < i && m@[j] == '\n',
        decreases m@.len() - i,
    {
        if m[i] == '\n' {
            has_newline = true;
        }
        i += 1;
    }
    if has_newline {
        let mut out: Vec<char> = Vec::new();
        out.push('\n');
        let mut rest = m.clone();
        out.append(&mut rest);
        assert(out@ =~= seq!['\n'] + message@);
        Some(string_from_chars(out.as_slice()))
    } else {
        Some(message.to_owned())
    }
}

} // verus!

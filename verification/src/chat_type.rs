use vstd::prelude::*;
use crate::text::{chars_of, text_is};

verus! {

/// The chat channels of the game.
#[derive(Debug, Clone, Copy, PartialEq, Eq, Structural)]
pub enum EChatType {
    AllSay,
    TeamSay,
    Whisper,
    Admin,
    Objective,
    System,
    ServerSay,
    Debug,
    CrosshairMsg,
    Backend,
    Party,
    Spectator,
    ClosedCaption,
    ClosedCaptionMason,
    ClosedCaptionAgatha,
    MAX,
}

/// The name of each chat type.
pub open spec fn chat_type_name(t: EChatType) -> Seq<char> {
    match t {
        EChatType::AllSay => "AllSay"@,
        EChatType::TeamSay => "TeamSay"@,
        EChatType::Whisper => "Whisper"@,
        EChatType::Admin => "Admin"@,
        EChatType::Objective => "Objective"@,
        EChatType::System => "System"@,
        EChatType::ServerSay => "ServerSay"@,
        EChatType::Debug => "Debug"@,
        EChatType::CrosshairMsg => "CrosshairMsg"@,
        EChatType::Backend => "Backend"@,
        EChatType::Party => "Party"@,
        EChatType::Spectator => "Spectator"@,
        EChatType::ClosedCaption => "ClosedCaption"@,
        EChatType::ClosedCaptionMason => "ClosedCaptionMason"@,
        EChatType::ClosedCaptionAgatha => "ClosedCaptionAgatha"@,
        EChatType::MAX => "MAX"@,
    }
}

/// The chat type with the given name.
pub open spec fn chat_type_from_name(s: Seq<char>) -> Option<EChatType> {
    if s == "AllSay"@ {
        Some(EChatType::AllSay)
    } else if s == "TeamSay"@ {
        Some(EChatType::TeamSay)
    } else if s == "Whisper"@ {
        Some(EChatType::Whisper)
    } else if s == "Admin"@ {
        Some(EChatType::Admin)
    } else if s == "Objective"@ {
        Some(EChatType::Objective)
    } else if s == "System"@ {
        Some(EChatType::System)
    } else if s == "ServerSay"@ {
        Some(EChatType::ServerSay)
    } else if s == "Debug"@ {
        Some(EChatType::Debug)
    } else if s == "CrosshairMsg"@ {
        Some(EChatType::CrosshairMsg)
    } else if s == "Backend"@ {
        Some(EChatType::Backend)
    } else if s == "Party"@ {
        Some(EChatType::Party)
    } else if s == "Spectator"@ {
        Some(EChatType::Spectator)
    } else if s == "ClosedCaption"@ {
        Some(EChatType::ClosedCaption)
    } else if s == "ClosedCaptionMason"@ {
        Some(EChatType::ClosedCaptionMason)
    } else if s == "ClosedCaptionAgatha"@ {
        Some(EChatType::ClosedCaptionAgatha)
    } else if s == "MAX"@ {
        Some(EChatType::MAX)
    } else {
        None
    }
}

/// The wire number of each chat type.
pub open spec fn chat_type_index(t: EChatType) -> u8 {
    match t {
        EChatType::AllSay => 0,
        EChatType::TeamSay => 1,
        EChatType::Whisper => 2,
        EChatType::Admin => 3,
        EChatType::Objective => 4,
        EChatType::System => 5,
        EChatType::ServerSay => 6,
        EChatType::Debug => 7,
        EChatType::CrosshairMsg => 8,
        EChatType::Backend => 9,
        EChatType::Party => 10,
        EChatType::Spectator => 11,
        EChatType::ClosedCaption => 12,
        EChatType::ClosedCaptionMason => 13,
        EChatType::ClosedCaptionAgatha => 14,
        EChatType::MAX => 15,
    }
}

/// The chat type with the given wire number.
pub open spec fn chat_type_from_index(v: u8) -> Option<EChatType> {
    match v {
        0 => Some(EChatType::AllSay),
        1 => Some(EChatType::TeamSay),
        2 => Some(EChatType::Whisper),
        3 => Some(EChatType::Admin),
        4 => Some(EChatType::Objective),
        5 => Some(EChatType::System),
        6 => Some(EChatType::ServerSay),
        7 => Some(EChatType::Debug),
        8 => Some(EChatType::CrosshairMsg),
        9 => Some(EChatType::Backend),
        10 => Some(EChatType::Party),
        11 => Some(EChatType::Spectator),
        12 => Some(EChatType::ClosedCaption),
        13 => Some(EChatType::ClosedCaptionMason),
        14 => Some(EChatType::ClosedCaptionAgatha),
        15 => Some(EChatType::MAX),
        _ => None,
    }
}

impl EChatType {
    /// The name of the chat type.
    pub fn as_str(&self) -> (r: &'static str)
        ensures
            r@ == chat_type_name(*self),
    {
        match self {
            EChatType::AllSay => "AllSay",
            EChatType::TeamSay => "TeamSay",
            EChatType::Whisper => "Whisper",
            EChatType::Admin => "Admin",
            EChatType::Objective => "Objective",
            EChatType::System => "System",
            EChatType::ServerSay => "ServerSay",
            EChatType::Debug => "Debug",
            EChatType::CrosshairMsg => "CrosshairMsg",
            EChatType::Backend => "Backend",
            EChatType::Party => "Party",
            EChatType::Spectator => "Spectator",
            EChatType::ClosedCaption => "ClosedCaption",
            EChatType::ClosedCaptionMason => "ClosedCaptionMason",
            EChatType::ClosedCaptionAgatha => "ClosedCaptionAgatha",
            EChatType::MAX => "MAX",
        }
    }

    /// Parses a chat type from its exact name.
    pub fn from_str(s: &str) -> (r: Result<EChatType, ()>)
        ensures
            r == (match chat_type_from_name(s@) {
                Some(t) => Ok(t),
                None => Err(()),
            }),
    {
        let cs = chars_of(s);
        if text_is(cs.as_slice(), "AllSay") {
            Ok(EChatType::AllSay)
        } else if text_is(cs.as_slice(), "TeamSay") {
            Ok(EChatType::TeamSay)
        } else if text_is(cs.as_slice(), "Whisper") {
            Ok(EChatType::Whisper)
        } else if text_is(cs.as_slice(), "Admin") {
            Ok(EChatType::Admin)
        } else if text_is(cs.as_slice(), "Objective") {
            Ok(EChatType::Objective)
        } else if text_is(cs.as_slice(), "System") {
            Ok(EChatType::System)
        } else if text_is(cs.as_slice(), "ServerSay") {
            Ok(EChatType::ServerSay)
        } else if text_is(cs.as_slice(), "Debug") {
            Ok(EChatType::Debug)
        } else if text_is(cs.as_slice(), "CrosshairMsg") {
            Ok(EChatType::CrosshairMsg)
        } else if text_is(cs.as_slice(), "Backend") {
            Ok(EChatType::Backend)
        } else if text_is(cs.as_slice(), "Party") {
            Ok(EChatType::Party)
        } else if text_is(cs.as_slice(), "Spectator") {
            Ok(EChatType::Spectator)
        } else if text_is(cs.as_slice(), "ClosedCaption") {
            Ok(EChatType::ClosedCaption)
        } else if text_is(cs.as_slice(), "ClosedCaptionMason") {
            Ok(EChatType::ClosedCaptionMason)
        } else if text_is(cs.as_slice(), "ClosedCaptionAgatha") {
            Ok(EChatType::ClosedCaptionAgatha)
        } else if text_is(cs.as_slice(), "MAX") {
            Ok(EChatType::MAX)
        } else {
            Err(())
        }
    }

    /// Converts a wire number into a chat type.
    pub fn try_from(value: u8) -> (r: Result<EChatType, ()>)
        ensures
            r == (match chat_type_from_index(value) {
                Some(t) => Ok(t),
                None => Err(()),
            }),
    {
        match value {
            0 => Ok(EChatType::AllSay),
            1 => Ok(EChatType::TeamSay),
            2 => Ok(EChatType::Whisper),
            3 => Ok(EChatType::Admin),
            4 => Ok(EChatType::Objective),
            5 => Ok(EChatType::System),
            6 => Ok(EChatType::ServerSay),
            7 => Ok(EChatType::Debug),
            8 => Ok(EChatType::CrosshairMsg),
            9 => Ok(EChatType::Backend),
            10 => Ok(EChatType::Party),
            11 => Ok(EChatType::Spectator),
            12 => Ok(EChatType::ClosedCaption),
            13 => Ok(EChatType::ClosedCaptionMason),
            14 => Ok(EChatType::ClosedCaptionAgatha),
            15 => Ok(EChatType::MAX),
            _ => Err(()),
        }
    }

    /// The wire number of the chat type.
    pub fn index(&self) -> (r: u8)
        ensures
            r == chat_type_index(*self),
    {
        match self {
            EChatType::AllSay => 0,
            EChatType::TeamSay => 1,
            EChatType::Whisper => 2,
            EChatType::Admin => 3,
            EChatType::Objective => 4,
            EChatType::System => 5,
            EChatType::ServerSay => 6,
            EChatType::Debug => 7,
            EChatType::CrosshairMsg => 8,
            EChatType::Backend => 9,
            EChatType::Party => 10,
            EChatType::Spectator => 11,
            EChatType::ClosedCaption => 12,
            EChatType::ClosedCaptionMason => 13,
            EChatType::ClosedCaptionAgatha => 14,
            EChatType::MAX => 15,
        }
    }
}

/// Reading a chat type's name back gives the same chat type.
pub proof fn lemma_chat_type_name_roundtrip(t: EChatType)
    ensures
        chat_type_from_name(chat_type_name(t)) == Some(t),
{
    reveal_strlit("AllSay");
    reveal_strlit("TeamSay");
    reveal_strlit("Whisper");
    reveal_strlit("Admin");
    reveal_strlit("Objective");
    reveal_strlit("System");
    reveal_strlit("ServerSay");
    reveal_strlit("Debug");
    reveal_strlit("CrosshairMsg");
    reveal_strlit("Backend");
    reveal_strlit("Party");
    reveal_strlit("Spectator");
    reveal_strlit("ClosedCaption");
    reveal_strlit("ClosedCaptionMason");
    reveal_strlit("ClosedCaptionAgatha");
    reveal_strlit("MAX");
    match t {
        EChatType::AllSay => {
        },
        EChatType::TeamSay => {
            assert("TeamSay"@.len() != "AllSay"@.len());
        },
        EChatType::Whisper => {
            assert("Whisper"@.len() != "AllSay"@.len());
            assert("Whisper"@[0] != "TeamSay"@[0]);
        },
        EChatType::Admin => {
            assert("Admin"@.len() != "AllSay"@.len());
            assert("Admin"@.len() != "TeamSay"@.len());
            assert("Admin"@.len() != "Whisper"@.len());
        },
        EChatType::Objective => {
            assert("Objective"@.len() != "AllSay"@.len());
            assert("Objective"@.len() != "TeamSay"@.len());
            assert("Objective"@.len() != "Whisper"@.len());
            assert("Objective"@.len() != "Admin"@.len());
        },
        EChatType::System => {
            assert("System"@[0] != "AllSay"@[0]);
            assert("System"@.len() != "TeamSay"@.len());
            assert("System"@.len() != "Whisper"@.len());
            assert("System"@.len() != "Admin"@.len());
            assert("System"@.len() != "Objective"@.len());
        },
        EChatType::ServerSay => {
            assert("ServerSay"@.len() != "AllSay"@.len());
            assert("ServerSay"@.len() != "TeamSay"@.len());
            assert("ServerSay"@.len() != "Whisper"@.len());
            assert("ServerSay"@.len() != "Admin"@.len());
            assert("ServerSay"@[0] != "Objective"@[0]);
            assert("ServerSay"@.len() != "System"@.len());
        },
        EChatType::Debug => {
            assert("Debug"@.len() != "AllSay"@.len());
            assert("Debug"@.len() != "TeamSay"@.len());
            assert("Debug"@.len() != "Whisper"@.len());
            assert("Debug"@[0] != "Admin"@[0]);
            assert("Debug"@.len() != "Objective"@.len());
            assert("Debug"@.len() != "System"@.len());
            assert("Debug"@.len() != "ServerSay"@.len());
        },
        EChatType::CrosshairMsg => {
            assert("CrosshairMsg"@.len() != "AllSay"@.len());
            assert("CrosshairMsg"@.len() != "TeamSay"@.len());
            assert("CrosshairMsg"@.len() != "Whisper"@.len());
            assert("CrosshairMsg"@.len() != "Admin"@.len());
            assert("CrosshairMsg"@.len() != "Objective"@.len());
            assert("CrosshairMsg"@.len() != "System"@.len());
            assert("CrosshairMsg"@.len() != "ServerSay"@.len());
            assert("CrosshairMsg"@.len() != "Debug"@.len());
        },
        EChatType::Backend => {
            assert("Backend"@.len() != "AllSay"@.len());
            assert("Backend"@[0] != "TeamSay"@[0]);
            assert("Backend"@[0] != "Whisper"@[0]);
            assert("Backend"@.len() != "Admin"@.len());
            assert("Backend"@.len() != "Objective"@.len());
            assert("Backend"@.len() != "System"@.len());
            assert("Backend"@.len() != "ServerSay"@.len());
            assert("Backend"@.len() != "Debug"@.len());
            assert("Backend"@.len() != "CrosshairMsg"@.len());
        },
        EChatType::Party => {
            assert("Party"@.len() != "AllSay"@.len());
            assert("Party"@.len() != "TeamSay"@.len());
            assert("Party"@.len() != "Whisper"@.len());
            assert("Party"@[0] != "Admin"@[0]);
            assert("Party"@.len() != "Objective"@.len());
            assert("Party"@.len() != "System"@.len());
            assert("Party"@.len() != "ServerSay"@.len());
            assert("Party"@[0] != "Debug"@[0]);
            assert("Party"@.len() != "CrosshairMsg"@.len());
            assert("Party"@.len() != "Backend"@.len());
        },
        EChatType::Spectator => {
            assert("Spectator"@.len() != "AllSay"@.len());
            assert("Spectator"@.len() != "TeamSay"@.len());
            assert("Spectator"@.len() != "Whisper"@.len());
            assert("Spectator"@.len() != "Admin"@.len());
            assert("Spectator"@[0] != "Objective"@[0]);
            assert("Spectator"@.len() != "System"@.len());
            assert("Spectator"@[1] != "ServerSay"@[1]);
            assert("Spectator"@.len() != "Debug"@.len());
            assert("Spectator"@.len() != "CrosshairMsg"@.len());
            assert("Spectator"@.len() != "Backend"@.len());
            assert("Spectator"@.len() != "Party"@.len());
        },
        EChatType::ClosedCaption => {
            assert("ClosedCaption"@.len() != "AllSay"@.len());
            assert("ClosedCaption"@.len() != "TeamSay"@.len());
            assert("ClosedCaption"@.len() != "Whisper"@.len());
            assert("ClosedCaption"@.len() != "Admin"@.len());
            assert("ClosedCaption"@.len() != "Objective"@.len());
            assert("ClosedCaption"@.len() != "System"@.len());
            assert("ClosedCaption"@.len() != "ServerSay"@.len());
            assert("ClosedCaption"@.len() != "Debug"@.len());
            assert("ClosedCaption"@.len() != "CrosshairMsg"@.len());
            assert("ClosedCaption"@.len() != "Backend"@.len());
            assert("ClosedCaption"@.len() != "Party"@.len());
            assert("ClosedCaption"@.len() != "Spectator"@.len());
        },
        EChatType::ClosedCaptionMason => {
            assert("ClosedCaptionMason"@.len() != "AllSay"@.len());
            assert("ClosedCaptionMason"@.len() != "TeamSay"@.len());
            assert("ClosedCaptionMason"@.len() != "Whisper"@.len());
            assert("ClosedCaptionMason"@.len() != "Admin"@.len());
            assert("ClosedCaptionMason"@.len() != "Objective"@.len());
            assert("ClosedCaptionMason"@.len() != "System"@.len());
            assert("ClosedCaptionMason"@.len() != "ServerSay"@.len());
            assert("ClosedCaptionMason"@.len() != "Debug"@.len());
            assert("ClosedCaptionMason"@.len() != "CrosshairMsg"@.len());
            assert("ClosedCaptionMason"@.len() != "Backend"@.len());
            assert("ClosedCaptionMason"@.len() != "Party"@.len());
            assert("ClosedCaptionMason"@.len() != "Spectator"@.len());
            assert("ClosedCaptionMason"@.len() != "ClosedCaption"@.len());
        },
        EChatType::ClosedCaptionAgatha => {
            assert("ClosedCaptionAgatha"@.len() != "AllSay"@.len());
            assert("ClosedCaptionAgatha"@.len() != "TeamSay"@.len());
            assert("ClosedCaptionAgatha"@.len() != "Whisper"@.len());
            assert("ClosedCaptionAgatha"@.len() != "Admin"@.len());
            assert("ClosedCaptionAgatha"@.len() != "Objective"@.len());
            assert("ClosedCaptionAgatha"@.len() != "System"@.len());
            assert("ClosedCaptionAgatha"@.len() != "ServerSay"@.len());
            assert("ClosedCaptionAgatha"@.len() != "Debug"@.len());
            assert("ClosedCaptionAgatha"@.len() != "CrosshairMsg"@.len());
            assert("ClosedCaptionAgatha"@.len() != "Backend"@.len());
            assert("ClosedCaptionAgatha"@.len() != "Party"@.len());
            assert("ClosedCaptionAgatha"@.len() != "Spectator"@.len());
            assert("ClosedCaptionAgatha"@.len() != "ClosedCaption"@.len());
            assert("ClosedCaptionAgatha"@.len() != "ClosedCaptionMason"@.len());
        },
        EChatType::MAX => {
            assert("MAX"@.len() != "AllSay"@.len());
            assert("MAX"@.len() != "TeamSay"@.len());
            assert("MAX"@.len() != "Whisper"@.len());
            assert("MAX"@.len() != "Admin"@.len());
            assert("MAX"@.len() != "Objective"@.len());
            assert("MAX"@.len() != "System"@.len());
            assert("MAX"@.len() != "ServerSay"@.len());
            assert("MAX"@.len() != "Debug"@.len());
            assert("MAX"@.len() != "CrosshairMsg"@.len());
            assert("MAX"@.len() != "Backend"@.len());
            assert("MAX"@.len() != "Party"@.len());
            assert("MAX"@.len() != "Spectator"@.len());
            assert("MAX"@.len() != "ClosedCaption"@.len());
            assert("MAX"@.len() != "ClosedCaptionMason"@.len());
            assert("MAX"@.len() != "ClosedCaptionAgatha"@.len());
        },
    }
}

/// The wire numbers are exactly 0 to 15, and converting a chat type to its
/// number and back gives the same chat type.
pub proof fn lemma_chat_type_index_roundtrip(t: EChatType, v: u8)
    ensures
        chat_type_from_index(chat_type_index(t)) == Some(t),
        chat_type_from_index(v) is Some <==> v <= 15,
        chat_type_from_index(v) matches Some(u) ==> chat_type_index(u) == v,
{
}

} // verus!

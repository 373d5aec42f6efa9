//! What an incoming text message or button press asks for.
use vstd::prelude::*;

verus! {

/// A text command.
#[derive(Clone, Copy, Debug, PartialEq, Eq, Structural)]
pub enum Command {
    Start,
    Late,
    Unlate,
    Stats,
    GetChatId,
    MyId,
    /// Anything else; answered with a usage hint.
    Unknown,
}

/// A button press.
#[derive(Clone, Copy, Debug, PartialEq, Eq, Structural)]
pub enum CallbackAction {
    /// A vote: true for "late", false for "not late".
    Vote(bool),
    Stats,
}

/// The command a message text names; only exact matches count.
pub open spec fn command_of(text: Seq<char>) -> Command {
    if text == "/start"@ {
        Command::Start
    } else if text == "/late"@ {
        Command::Late
    } else if text == "/unlate"@ {
        Command::Unlate
    } else if text == "/stats"@ {
        Command::Stats
    } else if text == "/get_chat_id"@ {
        Command::GetChatId
    } else if text == "/my_id"@ {
        Command::MyId
    } else {
        Command::Unknown
    }
}

/// The action a button's data names, if any.
pub open spec fn callback_of(data: Seq<char>) -> Option<CallbackAction> {
    if data == "late"@ {
        Some(CallbackAction::Vote(true))
    } else if data == "unlate"@ {
        Some(CallbackAction::Vote(false))
    } else if data == "stats"@ {
        Some(CallbackAction::Stats)
    } else {
        None
    }
}

/// Whether `a` and `b` hold the same characters.
fn same_text(a: &String, b: &str) -> (r: bool)
    ensures
        r == (a@ == b@),
{
    let b = b.to_owned();
    *a == b
}

/// The command named by a message's text.
pub fn parse_command(text: &str) -> (r: Command)
    ensures
        r == command_of(text@),
{
    let t = text.to_owned();
    if same_text(&t, "/start") {
        Command::Start
    } else if same_text(&t, "/late") {
        Command::Late
    } else if same_text(&t, "/unlate") {
        Command::Unlate
    } else if same_text(&t, "/stats") {
        Command::Stats
    } else if same_text(&t, "/get_chat_id") {
        Command::GetChatId
    } else if same_text(&t, "/my_id") {
        Command::MyId
    } else {
        Command::Unknown
    }
}

/// The action named by a button's data, if any.
pub fn parse_callback(data: &str) -> (r: Option<CallbackAction>)
    ensures
        r == callback_of(data@),
{
    let d = data.to_owned();
    if same_text(&d, "late") {
        Some(CallbackAction::Vote(true))
    } else if same_text(&d, "unlate") {
        Some(CallbackAction::Vote(false))
    } else if same_text(&d, "stats") {
        Some(CallbackAction::Stats)
    } else {
        None
    }
}

} // verus!

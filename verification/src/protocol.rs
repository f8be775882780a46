//! Commands on the local socket and the replies to them.

use vstd::prelude::*;

use crate::server::{download_source, source_for, Request};
use crate::text::concat2;

verus! {

/// A command on the local socket.
#[derive(Debug)]
pub enum Command {
    Play(String),
    Add(String),
    Del(String),
    Init(String),
    Search(String),
}

/// `r` is the request that a command stands for. A download searches for the
/// name.
pub open spec fn stands_for(cmd: Command, r: Request) -> bool {
    match cmd {
        Command::Play(q) => r matches Request::Play(s) && s@ == q@,
        Command::Add(q) => r matches Request::Add(s) && s@ == q@,
        Command::Del(q) => r matches Request::Del(s) && s@ == q@,
        Command::Init(q) => r matches Request::Init(n, s) && n@ == q@ && s@ == source_for(q@, None),
        Command::Search(q) => r matches Request::Search(s) && s@ == q@,
    }
}

/// The request that a command stands for.
pub fn command_request(cmd: &Command) -> (r: Request)
    ensures
        stands_for(*cmd, r),
{
    match cmd {
        Command::Play(q) => Request::Play(q.clone()),
        Command::Add(q) => Request::Add(q.clone()),
        Command::Del(q) => Request::Del(q.clone()),
        Command::Init(q) => Request::Init(q.clone(), download_source(q.as_str(), None)),
        Command::Search(q) => Request::Search(q.clone()),
    }
}

/// The reply to a command. A search is answered with the song that was found,
/// as JSON.
pub open spec fn reply_to(cmd: Command, found: Option<Seq<char>>) -> Seq<char> {
    match cmd {
        Command::Play(q) => "OK: Playing "@ + q@,
        Command::Add(q) => "OK: Added "@ + q@,
        Command::Del(q) => "OK: Deleted "@ + q@,
        Command::Init(q) => "OK: Downloading "@ + q@,
        Command::Search(_) => match found {
            Some(t) => t,
            None => "ERROR: Song not found"@,
        },
    }
}

/// The reply to a command, given what a search found.
pub fn command_reply(cmd: &Command, found: Option<String>) -> (r: String)
    ensures
        r@ == reply_to(*cmd, crate::text::opt_text(found)),
{
    match cmd {
        Command::Play(q) => concat2("OK: Playing ", q.as_str()),
        Command::Add(q) => concat2("OK: Added ", q.as_str()),
        Command::Del(q) => concat2("OK: Deleted ", q.as_str()),
        Command::Init(q) => concat2("OK: Downloading ", q.as_str()),
        Command::Search(_) => match found {
            Some(t) => t,
            None => String::from_str("ERROR: Song not found"),
        },
    }
}

/// A command for a download asks to search for its name; every other command
/// asks for what it is called, with the same text.
pub proof fn lemma_command_meaning(cmd: Command, r: Request)
    requires
        stands_for(cmd, r),
    ensures
        cmd matches Command::Init(q) ==> (r matches Request::Init(n, s) && n@ == q@ && s@
            == "ytsearch1:"@ + q@),
        cmd matches Command::Play(q) ==> (r matches Request::Play(s) && s@ == q@),
        cmd matches Command::Add(q) ==> (r matches Request::Add(s) && s@ == q@),
        cmd matches Command::Del(q) ==> (r matches Request::Del(s) && s@ == q@),
        cmd matches Command::Search(q) ==> (r matches Request::Search(s) && s@ == q@),
{
}

/// What is replied to a command: what is being done, to what; for a search, what
/// was found, or that nothing was.
pub proof fn lemma_command_replies(q: String, found: Option<Seq<char>>)
    ensures
        reply_to(Command::Play(q), found) == "OK: Playing "@ + q@,
        reply_to(Command::Add(q), found) == "OK: Added "@ + q@,
        reply_to(Command::Del(q), found) == "OK: Deleted "@ + q@,
        reply_to(Command::Init(q), found) == "OK: Downloading "@ + q@,
        found matches Some(t) ==> reply_to(Command::Search(q), found) == t,
        found is None ==> reply_to(Command::Search(q), found) == "ERROR: Song not found"@,
{
}

} // verus!

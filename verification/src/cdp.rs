//! Commands to the browser, and what a command handler has to know of it.
use vstd::prelude::*;
use vstd::string::*;

use crate::json::{opt_string, seen_value, Json, JsonV};

verus! {

/// A command of the browser's debugging protocol.
#[derive(PartialEq, Eq, Debug)]
pub struct CdpCommand {
    pub method: String,
    pub params: Option<Json>,
    pub session: Option<String>,
}

/// The contents of a command.
pub ghost struct CommandV {
    pub method: Seq<char>,
    pub params: Option<JsonV>,
    pub session: Option<Seq<char>>,
}

impl CdpCommand {
    /// The contents of the command.
    pub open spec fn view(self) -> CommandV {
        CommandV {
            method: self.method@,
            params: seen_value(self.params),
            session: opt_string(self.session),
        }
    }

    /// The command with parameters, to one session.
    pub fn new(method: &str, params: Json, session: &str) -> (r: CdpCommand)
        ensures
            r.view() == command(method@, params.view(), session@),
    {
        CdpCommand {
            method: method.to_owned(),
            params: Some(params),
            session: Some(session.to_owned()),
        }
    }

    /// The command without parameters, to one session.
    pub fn bare(method: &str, session: &str) -> (r: CdpCommand)
        ensures
            r.view() == bare_command(method@, session@),
    {
        CdpCommand {
            method: method.to_owned(),
            params: None,
            session: Some(session.to_owned()),
        }
    }
}

/// The command with parameters, to one session.
pub open spec fn command(method: Seq<char>, params: JsonV, session: Seq<char>) -> CommandV {
    CommandV { method, params: Some(params), session: Some(session) }
}

/// The command without parameters, to one session.
pub open spec fn bare_command(method: Seq<char>, session: Seq<char>) -> CommandV {
    CommandV { method, params: None, session: Some(session) }
}

/// A command to send, and what to answer once the browser has carried it out.
#[derive(PartialEq, Eq, Debug)]
pub struct Exchange {
    pub command: CdpCommand,
    pub reply: Json,
}

/// The contents of an exchange.
pub ghost struct ExchangeV {
    pub command: CommandV,
    pub reply: JsonV,
}

impl Exchange {
    /// The contents of the exchange.
    pub open spec fn view(self) -> ExchangeV {
        ExchangeV { command: self.command.view(), reply: self.reply.view() }
    }
}

/// The contents of an exchange or of an error message.
pub open spec fn outcome(r: Result<Exchange, String>) -> Result<ExchangeV, Seq<char>> {
    match r {
        Ok(x) => Ok(x.view()),
        Err(e) => Err(e@),
    }
}

/// The contents of a string or of an error message.
pub open spec fn text_outcome(r: Result<String, String>) -> Result<Seq<char>, Seq<char>> {
    match r {
        Ok(x) => Ok(x@),
        Err(e) => Err(e@),
    }
}

/// The contents of a JSON value or of an error message.
pub open spec fn json_outcome(r: Result<Json, String>) -> Result<JsonV, Seq<char>> {
    match r {
        Ok(x) => Ok(x.view()),
        Err(e) => Err(e@),
    }
}

/// The browser, as a command handler finds it: not there, there without an active
/// session (and why), or with one.
#[derive(PartialEq, Eq, Debug)]
pub enum Browser {
    NotLaunched,
    NoSession(String),
    Session(String),
}

impl Browser {
    /// The active session, or the error to answer where there is none.
    pub open spec fn session_view(self) -> Result<Seq<char>, Seq<char>> {
        match self {
            Browser::NotLaunched => Err("Browser not launched"@),
            Browser::NoSession(e) => Err(e@),
            Browser::Session(s) => Ok(s@),
        }
    }

    /// The active session, or the error to answer where there is none.
    pub fn session(&self) -> (r: Result<String, String>)
        ensures
            text_outcome(r) == self.session_view(),
    {
        match self {
            Browser::NotLaunched => Err("Browser not launched".to_owned()),
            Browser::NoSession(e) => Err(e.clone()),
            Browser::Session(s) => Ok(s.clone()),
        }
    }
}

/// The message that a command lacks a parameter.
pub open spec fn missing_parameter(key: Seq<char>) -> Seq<char> {
    "Missing '"@ + key + "' parameter"@
}

/// The string that a command has to hold under a key.
pub open spec fn required(cmd: JsonV, key: Seq<char>) -> Result<Seq<char>, Seq<char>> {
    match cmd.str_at(key) {
        Some(s) => Ok(s),
        None => Err(missing_parameter(key)),
    }
}

/// The string that a command has to hold under a key.
pub fn req_str(cmd: &Json, key: &str) -> (r: Result<String, String>)
    ensures
        text_outcome(r) == required(cmd.view(), key@),
{
    match cmd.str_at(key) {
        Some(s) => Ok(s.to_owned()),
        None => {
            let mut m = String::new();
            m.append("Missing '");
            m.append(key);
            m.append("' parameter");
            assert(Seq::<char>::empty() + "Missing '"@ == "Missing '"@);
            Err(m)
        },
    }
}

} // verus!

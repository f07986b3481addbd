//! The operator console: the help text of its commands, the messages it
//! answers with, and the errors that bot commands report.
use vstd::prelude::*;

verus! {

/// How serious a console message is.
#[derive(Debug, Clone, Copy, PartialEq, Eq, Structural)]
pub enum LogLevel {
    Error,
    Warn,
    Info,
    Debug,
    Trace,
}

/// The help of one console command.
#[derive(Debug, Clone, Copy)]
pub struct CommandHelp {
    pub description: &'static str,
    pub usage: &'static str,
}

/// The messages a console command has produced, oldest first.
#[derive(Debug, Clone)]
pub struct InputAgentOutput {
    messages: Vec<(LogLevel, String)>,
}

impl InputAgentOutput {
    /// The messages, each as its level and text.
    pub closed spec fn view_messages(&self) -> Seq<(LogLevel, Seq<char>)> {
        self.messages@.map_values(|m: (LogLevel, String)| (m.0, m.1@))
    }

    pub fn new() -> (r: Self)
        ensures r.view_messages() == Seq::<(LogLevel, Seq<char>)>::empty(),
    {
        InputAgentOutput { messages: Vec::new() }
    }

    pub fn messages(&self) -> (r: &[(LogLevel, String)])
        ensures r@.map_values(|m: (LogLevel, String)| (m.0, m.1@)) == self.view_messages(),
    {
        self.messages.as_slice()
    }

    pub fn into_messages(self) -> (r: Vec<(LogLevel, String)>)
        ensures r@.map_values(|m: (LogLevel, String)| (m.0, m.1@)) == self.view_messages(),
    {
        self.messages
    }

    /// Records a message at the given level.
    pub fn log(&mut self, level: LogLevel, message: String)
        ensures final(self).view_messages() == old(self).view_messages().push((level, message@)),
    {
        let ghost before = self.messages@;
        self.messages.push((level, message));
        proof {
            assert(self.messages@.map_values(|m: (LogLevel, String)| (m.0, m.1@))
                =~= before.map_values(|m: (LogLevel, String)| (m.0, m.1@)).push((level, message@)));
        }
    }

    pub fn error(&mut self, message: String)
        ensures final(self).view_messages() == old(self).view_messages().push((LogLevel::Error, message@)),
    {
        self.log(LogLevel::Error, message);
    }

    pub fn warn(&mut self, message: String)
        ensures final(self).view_messages() == old(self).view_messages().push((LogLevel::Warn, message@)),
    {
        self.log(LogLevel::Warn, message);
    }

    pub fn info(&mut self, message: String)
        ensures final(self).view_messages() == old(self).view_messages().push((LogLevel::Info, message@)),
    {
        self.log(LogLevel::Info, message);
    }

    pub fn debug(&mut self, message: String)
        ensures final(self).view_messages() == old(self).view_messages().push((LogLevel::Debug, message@)),
    {
        self.log(LogLevel::Debug, message);
    }

    pub fn trace(&mut self, message: String)
        ensures final(self).view_messages() == old(self).view_messages().push((LogLevel::Trace, message@)),
    {
        self.log(LogLevel::Trace, message);
    }
}

impl Default for InputAgentOutput {
    fn default() -> (r: Self)
        ensures r.view_messages() == Seq::<(LogLevel, Seq<char>)>::empty(),
    {
        InputAgentOutput::new()
    }
}

/// An error that a bot command reports to its user.
#[derive(Debug, Clone, Copy, PartialEq, Eq)]
pub enum MelodyCommandError {
    NotInGuild,
    CacheFailure(&'static str),
    PreconditionViolation(&'static str),
}

impl MelodyCommandError {
    pub fn cache_failure(message: &'static str) -> (r: Self)
        ensures r matches MelodyCommandError::CacheFailure(m) && m == message,
    {
        MelodyCommandError::CacheFailure(message)
    }

    pub fn precondition_violation(message: &'static str) -> (r: Self)
        ensures r matches MelodyCommandError::PreconditionViolation(m) && m == message,
    {
        MelodyCommandError::PreconditionViolation(message)
    }

    /// The text shown for the error.
    pub open spec fn text(&self) -> Seq<char> {
        match self {
            MelodyCommandError::NotInGuild => "not in a guild"@,
            MelodyCommandError::CacheFailure(m) => "data not cached: "@ + m@,
            MelodyCommandError::PreconditionViolation(m) => "precondition violated: "@ + m@,
        }
    }

    pub fn to_text(&self) -> (r: String)
        ensures r@ == self.text(),
    {
        match self {
            MelodyCommandError::NotInGuild => String::from_str("not in a guild"),
            MelodyCommandError::CacheFailure(m) => {
                let mut s = String::from_str("data not cached: ");
                s.append(m);
                s
            },
            MelodyCommandError::PreconditionViolation(m) => {
                let mut s = String::from_str("precondition violated: ");
                s.append(m);
                s
            },
        }
    }
}

} // verus!

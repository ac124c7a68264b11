//! A collector of messages for the program's start-up.

use vstd::prelude::*;

verus! {

/// The kinds of log messages.
#[derive(Debug, Clone, Copy, PartialEq, Eq, Structural, Hash)]
pub enum LoggerType {
    Error,
    Info,
    Message,
}

/// The messages of a logger by kind, each kind in the order of logging.
pub struct LoggerView {
    pub errors: Seq<Seq<char>>,
    pub infos: Seq<Seq<char>>,
    pub messages: Seq<Seq<char>>,
}

impl LoggerView {
    /// The messages of one kind.
    pub open spec fn of(self, kind: LoggerType) -> Seq<Seq<char>> {
        match kind {
            LoggerType::Error => self.errors,
            LoggerType::Info => self.infos,
            LoggerType::Message => self.messages,
        }
    }
}

/// The views of a sequence of string slices.
pub open spec fn slices(list: Seq<&str>) -> Seq<Seq<char>> {
    Seq::new(list.len(), |i: int| list[i]@)
}

/// The line that shows a message of the kind: the kind's mark and the
/// message, coloured for a terminal.
pub open spec fn log_line(kind: LoggerType, message: Seq<char>) -> Seq<char> {
    match kind {
        LoggerType::Info => "\x1b[1;36m[#] \x1b[0;36m"@ + message + "\x1b[0m"@,
        LoggerType::Error => "\x1b[1;31m[*] \x1b[0;31m"@ + message + "\x1b[0m"@,
        LoggerType::Message => "\x1b[1;32m[+] \x1b[0;32m"@ + message + "\x1b[0m"@,
    }
}

/// The lines that show the messages `list` of the kind.
pub open spec fn log_lines(kind: LoggerType, list: Seq<Seq<char>>) -> Seq<Seq<char>> {
    Seq::new(list.len(), |i: int| log_line(kind, list[i]))
}

/// Collects messages by kind.
pub struct Logger<'a> {
    errors: Vec<&'a str>,
    infos: Vec<&'a str>,
    messages: Vec<&'a str>,
}

impl<'a> View for Logger<'a> {
    type V = LoggerView;

    closed spec fn view(&self) -> LoggerView {
        LoggerView {
            errors: slices(self.errors@),
            infos: slices(self.infos@),
            messages: slices(self.messages@),
        }
    }
}

impl<'a> Logger<'a> {
    /// A logger without messages.
    pub fn new() -> (r: Self)
        ensures
            r@.errors.len() == 0,
            r@.infos.len() == 0,
            r@.messages.len() == 0,
    {
        Self { errors: Vec::new(), infos: Vec::new(), messages: Vec::new() }
    }

    /// Adds `msg` behind the messages of its kind; the other kinds keep
    /// theirs.
    pub fn log_msg(&mut self, msg: &'a str, kind: LoggerType)
        ensures
            final(self)@.of(kind) == old(self)@.of(kind).push(msg@),
            forall|other: LoggerType| other != kind ==> final(self)@.of(other) == old(self)@.of(other),
    {
        match kind {
            LoggerType::Error => {
                self.errors.push(msg);
                assert(slices(self.errors@) =~= slices(old(self).errors@).push(msg@));
            },
            LoggerType::Info => {
                self.infos.push(msg);
                assert(slices(self.infos@) =~= slices(old(self).infos@).push(msg@));
            },
            LoggerType::Message => {
                self.messages.push(msg);
                assert(slices(self.messages@) =~= slices(old(self).messages@).push(msg@));
            },
        }
    }

    /// The lines that show the messages of one kind, in the order of
    /// logging.
    pub fn lines(&self, kind: LoggerType) -> (r: Vec<String>)
        ensures
            crate::text::texts(r@) == log_lines(kind, self@.of(kind)),
    {
        let list = match kind {
            LoggerType::Error => &self.errors,
            LoggerType::Info => &self.infos,
            LoggerType::Message => &self.messages,
        };
        let mut out: Vec<String> = Vec::new();
        let mut i: usize = 0;
        while i < list.len()
            invariant
                i <= list.len(),
                out.len() == i,
                forall|j: int| 0 <= j < i ==> out@[j]@ == log_line(kind, list@[j]@),
            decreases list.len() - i,
        {
            let mut line = match kind {
                LoggerType::Info => String::from_str("\x1b[1;36m[#] \x1b[0;36m"),
                LoggerType::Error => String::from_str("\x1b[1;31m[*] \x1b[0;31m"),
                LoggerType::Message => String::from_str("\x1b[1;32m[+] \x1b[0;32m"),
            };
            line.append(list[i]);
            line.append("\x1b[0m");
            out.push(line);
            i = i + 1;
        }
        assert(slices(list@) == self@.of(kind));
        assert(crate::text::texts(out@) =~= log_lines(kind, slices(list@)));
        out
    }
}

} // verus!

//! A console logger with a severity threshold and a dotted path of names.
use crate::text::str_eq;
use vstd::prelude::*;
use vstd::string::StringExecFns;

verus! {

/// Severity of a log message, most severe first.
#[derive(Clone, Copy, Debug, PartialEq, Eq, Structural)]
pub enum LogLevel {
    Error,
    Warn,
    Info,
    Debug,
    Trace,
}

/// The rank of a level: more severe levels rank lower.
pub open spec fn level_rank(l: LogLevel) -> nat {
    match l {
        LogLevel::Error => 0,
        LogLevel::Warn => 1,
        LogLevel::Info => 2,
        LogLevel::Debug => 3,
        LogLevel::Trace => 4,
    }
}

/// The lowercase name of a level.
pub open spec fn level_name(l: LogLevel) -> Seq<char> {
    match l {
        LogLevel::Error => "error"@,
        LogLevel::Warn => "warn"@,
        LogLevel::Info => "info"@,
        LogLevel::Debug => "debug"@,
        LogLevel::Trace => "trace"@,
    }
}

/// The one-letter symbol that prefixes lines of a level.
pub open spec fn level_symbol(l: LogLevel) -> Seq<char> {
    match l {
        LogLevel::Error => "E"@,
        LogLevel::Warn => "W"@,
        LogLevel::Info => "I"@,
        LogLevel::Debug => "D"@,
        LogLevel::Trace => "T"@,
    }
}

/// The level named `s`, if any.
pub open spec fn level_named(s: Seq<char>) -> Option<LogLevel> {
    if s == "error"@ {
        Some(LogLevel::Error)
    } else if s == "warn"@ {
        Some(LogLevel::Warn)
    } else if s == "info"@ {
        Some(LogLevel::Info)
    } else if s == "debug"@ {
        Some(LogLevel::Debug)
    } else if s == "trace"@ {
        Some(LogLevel::Trace)
    } else {
        None
    }
}

impl LogLevel {
    /// The rank of this level: more severe levels rank lower.
    pub fn rank(&self) -> (r: u8)
        ensures
            r == level_rank(*self),
    {
        match self {
            LogLevel::Error => 0,
            LogLevel::Warn => 1,
            LogLevel::Info => 2,
            LogLevel::Debug => 3,
            LogLevel::Trace => 4,
        }
    }

    /// The level with the given lowercase name, or an error message naming it.
    pub fn parse(s: &str) -> (res: Result<LogLevel, String>)
        ensures
            match level_named(s@) {
                Some(l) => res == Ok::<LogLevel, String>(l),
                None => res matches Err(msg) && msg@ == "Unknown log level: "@ + s@,
            },
    {
        if str_eq(s, "error") {
            Ok(LogLevel::Error)
        } else if str_eq(s, "warn") {
            Ok(LogLevel::Warn)
        } else if str_eq(s, "info") {
            Ok(LogLevel::Info)
        } else if str_eq(s, "debug") {
            Ok(LogLevel::Debug)
        } else if str_eq(s, "trace") {
            Ok(LogLevel::Trace)
        } else {
            let msg = String::from_str("Unknown log level: ").concat(s);
            Err(msg)
        }
    }

    /// The one-letter symbol that prefixes lines of this level.
    pub fn symbol(&self) -> (s: &'static str)
        ensures
            s@ == level_symbol(*self),
    {
        match self {
            LogLevel::Error => "E",
            LogLevel::Warn => "W",
            LogLevel::Info => "I",
            LogLevel::Debug => "D",
            LogLevel::Trace => "T",
        }
    }

    /// A logger with this level and an empty path.
    pub fn logger(self) -> (l: Logger)
        ensures
            l.spec_level() == self,
            l.path_view() == Seq::<Seq<char>>::empty(),
    {
        Logger::new(self)
    }
}

impl core::str::FromStr for LogLevel {
    type Err = String;

    fn from_str(s: &str) -> (res: Result<Self, Self::Err>)
        ensures
            match level_named(s@) {
                Some(l) => res == Ok::<LogLevel, String>(l),
                None => res matches Err(msg) && msg@ == "Unknown log level: "@ + s@,
            },
    {
        LogLevel::parse(s)
    }
}

/// `names` joined with dots.
pub open spec fn dotted(names: Seq<Seq<char>>) -> Seq<char>
    decreases names.len(),
{
    if names.len() == 0 {
        Seq::empty()
    } else if names.len() == 1 {
        names[0]
    } else {
        dotted(names.drop_last()) + "."@ + names.last()
    }
}

/// The line logged for a message: the level's symbol, the dotted path in
/// parentheses, a colon and the message.
pub open spec fn log_line(level: LogLevel, path: Seq<Seq<char>>, message: Seq<char>) -> Seq<char> {
    level_symbol(level) + "("@ + dotted(path) + "): "@ + message
}

/// A logger that keeps messages at least as severe as its level, and prefixes
/// them with its path of names.
#[derive(Debug)]
pub struct Logger {
    pub level: LogLevel,
    path: Vec<String>,
}

impl Logger {
    /// The level of the logger.
    pub closed spec fn spec_level(&self) -> LogLevel {
        self.level
    }

    /// The names on the logger's path, outermost first.
    pub closed spec fn path_view(&self) -> Seq<Seq<char>> {
        self.path@.map_values(|s: String| s@)
    }

    /// A logger with the given level and an empty path.
    pub fn new(level: LogLevel) -> (l: Self)
        ensures
            l.spec_level() == level,
            l.path_view() == Seq::<Seq<char>>::empty(),
    {
        let l = Logger { level, path: Vec::new() };
        assert(l.path_view() =~= Seq::<Seq<char>>::empty());
        l
    }

    /// A logger with the same level whose path extends this one's by `name`.
    pub fn sub(&self, name: &str) -> (l: Self)
        ensures
            l.spec_level() == self.spec_level(),
            l.path_view() == self.path_view().push(name@),
    {
        let mut path: Vec<String> = Vec::new();
        let mut i: usize = 0;
        while i < self.path.len()
            invariant
                0 <= i <= self.path@.len(),
                path@.len() == i,
                forall|j: int| 0 <= j < i ==> #[trigger] path@[j]@ == self.path@[j]@,
            decreases self.path@.len() - i,
        {
            let item = String::from_str(self.path[i].as_str());
            path.push(item);
            i = i + 1;
        }
        path.push(String::from_str(name));
        let l = Logger { level: self.level, path };
        assert(l.path_view() =~= self.path_view().push(name@)) by {
            assert forall|j: int| 0 <= j < l.path@.len() implies #[trigger] l.path_view()[j]
                == self.path_view().push(name@)[j] by {
                if j < self.path@.len() {
                    assert(l.path@[j]@ == self.path@[j]@);
                }
            }
        }
        l
    }

    /// The line to print for `message` at `level`, or `None` when the level is
    /// less severe than the logger's.
    pub fn log(&self, level: LogLevel, message: &str) -> (line: Option<String>)
        ensures
            match line {
                Some(s) => level_rank(level) <= level_rank(self.spec_level()) && s@ == log_line(
                    level,
                    self.path_view(),
                    message@,
                ),
                None => level_rank(level) > level_rank(self.spec_level()),
            },
    {
        if level.rank() > self.level.rank() {
            return None;
        }
        let mut s = String::from_str(level.symbol());
        s.append("(");
        let mut i: usize = 0;
        while i < self.path.len()
            invariant
                0 <= i <= self.path@.len(),
                s@ == level_symbol(level) + "("@ + dotted(self.path_view().subrange(0, i as int)),
            decreases self.path@.len() - i,
        {
            let ghost before = s@;
            if i > 0 {
                s.append(".");
            }
            s.append(self.path[i].as_str());
            proof {
                let names = self.path_view().subrange(0, i + 1);
                assert(names.drop_last() =~= self.path_view().subrange(0, i as int));
                if i == 0 {
                    assert(dotted(self.path_view().subrange(0, 0)) =~= Seq::<char>::empty());
                }
                assert(s@ =~= level_symbol(level) + "("@ + dotted(names));
            }
            i = i + 1;
        }
        assert(self.path_view().subrange(0, self.path@.len() as int) =~= self.path_view());
        s.append("): ");
        s.append(message);
        assert(s@ =~= log_line(level, self.path_view(), message@));
        Some(s)
    }

    /// The line for an error message.
    pub fn error(&self, message: &str) -> (line: Option<String>)
        ensures
            line matches Some(s) && s@ == log_line(LogLevel::Error, self.path_view(), message@),
    {
        self.log(LogLevel::Error, message)
    }

    /// The line for a warning, if the logger keeps warnings.
    pub fn warn(&self, message: &str) -> (line: Option<String>)
        ensures
            match line {
                Some(s) => level_rank(self.spec_level()) >= 1 && s@ == log_line(
                    LogLevel::Warn,
                    self.path_view(),
                    message@,
                ),
                None => level_rank(self.spec_level()) < 1,
            },
    {
        self.log(LogLevel::Warn, message)
    }

    /// The line for an informational message, if the logger keeps them.
    pub fn info(&self, message: &str) -> (line: Option<String>)
        ensures
            match line {
                Some(s) => level_rank(self.spec_level()) >= 2 && s@ == log_line(
                    LogLevel::Info,
                    self.path_view(),
                    message@,
                ),
                None => level_rank(self.spec_level()) < 2,
            },
    {
        self.log(LogLevel::Info, message)
    }

    /// The line for a debug message, if the logger keeps them.
    pub fn debug(&self, message: &str) -> (line: Option<String>)
        ensures
            match line {
                Some(s) => level_rank(self.spec_level()) >= 3 && s@ == log_line(
                    LogLevel::Debug,
                    self.path_view(),
                    message@,
                ),
                None => level_rank(self.spec_level()) < 3,
            },
    {
        self.log(LogLevel::Debug, message)
    }

    /// The line for a trace message, if the logger keeps them.
    pub fn trace(&self, message: &str) -> (line: Option<String>)
        ensures
            match line {
                Some(s) => level_rank(self.spec_level()) >= 4 && s@ == log_line(
                    LogLevel::Trace,
                    self.path_view(),
                    message@,
                ),
                None => level_rank(self.spec_level()) < 4,
            },
    {
        self.log(LogLevel::Trace, message)
    }
}

/// Parsing the name of a level gives the level back.
pub proof fn lemma_level_name_roundtrip(l: LogLevel)
    ensures
        level_named(level_name(l)) == Some(l),
{
    reveal_strlit("error");
    reveal_strlit("warn");
    reveal_strlit("info");
    reveal_strlit("debug");
    reveal_strlit("trace");
    assert("warn"@ != "error"@) by {
        assert("warn"@.len() != "error"@.len());
    }
    assert("info"@ != "error"@) by {
        assert("info"@.len() != "error"@.len());
    }
    assert("info"@ != "warn"@) by {
        assert("info"@[0] != "warn"@[0]);
    }
    assert("debug"@ != "error"@) by {
        assert("debug"@[0] != "error"@[0]);
    }
    assert("debug"@ != "warn"@) by {
        assert("debug"@.len() != "warn"@.len());
    }
    assert("debug"@ != "info"@) by {
        assert("debug"@.len() != "info"@.len());
    }
    assert("trace"@ != "error"@) by {
        assert("trace"@[0] != "error"@[0]);
    }
    assert("trace"@ != "warn"@) by {
        assert("trace"@.len() != "warn"@.len());
    }
    assert("trace"@ != "info"@) by {
        assert("trace"@.len() != "info"@.len());
    }
    assert("trace"@ != "debug"@) by {
        assert("trace"@[0] != "debug"@[0]);
    }
}

} // verus!

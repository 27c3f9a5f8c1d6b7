use vstd::prelude::*;

verus! {

/// Severity of a log event; the most severe level comes first.
#[derive(Copy, Clone, PartialEq, Eq, Structural, PartialOrd, Ord, Debug, Hash)]
pub enum Level {
    Crash,
    Error,
    Warn,
    Info,
    Debug,
    Trace,
}

/// Ordinal of a level: `Crash` is 0, `Trace` is 5.
pub open spec fn level_index(l: Level) -> nat {
    match l {
        Level::Crash => 0,
        Level::Error => 1,
        Level::Warn => 2,
        Level::Info => 3,
        Level::Debug => 4,
        Level::Trace => 5,
    }
}

/// Canonical upper-case name of a level.
pub open spec fn level_name(l: Level) -> Seq<char> {
    match l {
        Level::Crash => "CRASH"@,
        Level::Error => "ERROR"@,
        Level::Warn => "WARN"@,
        Level::Info => "INFO"@,
        Level::Debug => "DEBUG"@,
        Level::Trace => "TRACE"@,
    }
}

/// Code of a character with ASCII upper-case letters folded to lower case.
pub open spec fn fold_ascii(c: char) -> u32 {
    if 65 <= (c as u32) && (c as u32) <= 90 {
        (c as u32 + 32) as u32
    } else {
        c as u32
    }
}

/// Two strings are equal up to ASCII case.
pub open spec fn eq_ignore_case(a: Seq<char>, b: Seq<char>) -> bool {
    &&& a.len() == b.len()
    &&& forall|i: int| 0 <= i < a.len() ==> #[trigger] fold_ascii(a[i]) == fold_ascii(b[i])
}

/// The level whose name matches `s` ignoring ASCII case, trying the levels
/// from the most severe down.
pub open spec fn level_from_name(s: Seq<char>) -> Option<Level> {
    if eq_ignore_case(s, level_name(Level::Crash)) {
        Some(Level::Crash)
    } else if eq_ignore_case(s, level_name(Level::Error)) {
        Some(Level::Error)
    } else if eq_ignore_case(s, level_name(Level::Warn)) {
        Some(Level::Warn)
    } else if eq_ignore_case(s, level_name(Level::Info)) {
        Some(Level::Info)
    } else if eq_ignore_case(s, level_name(Level::Debug)) {
        Some(Level::Debug)
    } else if eq_ignore_case(s, level_name(Level::Trace)) {
        Some(Level::Trace)
    } else {
        None
    }
}

fn fold_char(c: char) -> (r: u32)
    ensures
        r == fold_ascii(c),
{
    let v = c as u32;
    if 65 <= v && v <= 90 {
        v + 32
    } else {
        v
    }
}

/// Compares two strings character by character, ignoring ASCII case.
pub fn eq_ignore_ascii_case(a: &str, b: &str) -> (r: bool)
    ensures
        r == eq_ignore_case(a@, b@),
{
    let n = a.unicode_len();
    if n != b.unicode_len() {
        return false;
    }
    let mut i: usize = 0;
    while i < n
        invariant
            n == a@.len(),
            n == b@.len(),
            i <= n,
            forall|j: int| 0 <= j < i ==> #[trigger] fold_ascii(a@[j]) == fold_ascii(b@[j]),
        decreases n - i,
    {
        if fold_char(a.get_char(i)) != fold_char(b.get_char(i)) {
            return false;
        }
        i = i + 1;
    }
    true
}

/// Error returned when a string names no level.
#[derive(Debug)]
pub struct LevelParseError;

impl Level {
    /// The level with the given ordinal, if there is one.
    pub fn from_usize(idx: usize) -> (r: Option<Level>)
        ensures
            r matches Some(l) ==> level_index(l) == idx,
            r is None <==> idx > 5,
    {
        match idx {
            0 => Some(Level::Crash),
            1 => Some(Level::Error),
            2 => Some(Level::Warn),
            3 => Some(Level::Info),
            4 => Some(Level::Debug),
            5 => Some(Level::Trace),
            _ => None,
        }
    }

    /// Ordinal of the level: the most severe level has the smallest one.
    pub fn index(&self) -> (r: usize)
        ensures
            r == level_index(*self),
    {
        match self {
            Level::Crash => 0,
            Level::Error => 1,
            Level::Warn => 2,
            Level::Info => 3,
            Level::Debug => 4,
            Level::Trace => 5,
        }
    }

    /// Upper-case name of the level.
    pub fn as_str(&self) -> (r: &'static str)
        ensures
            r@ == level_name(*self),
    {
        match self {
            Level::Crash => "CRASH",
            Level::Error => "ERROR",
            Level::Warn => "WARN",
            Level::Info => "INFO",
            Level::Debug => "DEBUG",
            Level::Trace => "TRACE",
        }
    }

    /// Parses a level name, ignoring ASCII case.
    pub fn parse_name(s: &str) -> (r: Result<Level, LevelParseError>)
        ensures
            r matches Ok(l) ==> level_from_name(s@) == Some(l),
            r is Err <==> level_from_name(s@) is None,
    {
        if eq_ignore_ascii_case(s, "CRASH") {
            Ok(Level::Crash)
        } else if eq_ignore_ascii_case(s, "ERROR") {
            Ok(Level::Error)
        } else if eq_ignore_ascii_case(s, "WARN") {
            Ok(Level::Warn)
        } else if eq_ignore_ascii_case(s, "INFO") {
            Ok(Level::Info)
        } else if eq_ignore_ascii_case(s, "DEBUG") {
            Ok(Level::Debug)
        } else if eq_ignore_ascii_case(s, "TRACE") {
            Ok(Level::Trace)
        } else {
            Err(LevelParseError)
        }
    }
}

impl core::str::FromStr for Level {
    type Err = LevelParseError;

    fn from_str(s: &str) -> Result<Level, LevelParseError> {
        Level::parse_name(s)
    }
}

/// What a piece of metadata describes, as plain values.
pub struct MetadataView {
    pub level: Level,
    pub target: Seq<char>,
    pub module_name: Seq<char>,
    pub file: Seq<char>,
    pub line: u32,
    pub location: Seq<char>,
    pub thread_name: Option<Seq<char>>,
    pub thread_id: u64,
    pub hostname: Option<Seq<char>>,
}

/// Immutable description of where and at which level a log event occurred.
#[derive(Clone, Debug)]
pub struct Metadata {
    level: Level,
    target: &'static str,
    module_name: &'static str,
    file: &'static str,
    line: u32,
    location: &'static str,
    thread_name: Option<String>,
    thread_id: u64,
    hostname: Option<&'static str>,
}

pub open spec fn opt_string_view(o: Option<String>) -> Option<Seq<char>> {
    match o {
        Some(s) => Some(s@),
        None => None,
    }
}

pub open spec fn opt_str_view(o: Option<&str>) -> Option<Seq<char>> {
    match o {
        Some(s) => Some(s@),
        None => None,
    }
}

impl View for Metadata {
    type V = MetadataView;

    closed spec fn view(&self) -> MetadataView {
        MetadataView {
            level: self.level,
            target: self.target@,
            module_name: self.module_name@,
            file: self.file@,
            line: self.line,
            location: self.location@,
            thread_name: opt_string_view(self.thread_name),
            thread_id: self.thread_id,
            hostname: opt_str_view(self.hostname),
        }
    }
}

impl Metadata {
    /// Builds metadata from its parts; the thread's name and id and the host's
    /// name are read by the caller, once per thread or process.
    pub fn new(
        level: Level,
        target: &'static str,
        module_name: &'static str,
        file: &'static str,
        line: u32,
        location: &'static str,
        thread_name: Option<String>,
        thread_id: u64,
        hostname: Option<&'static str>,
    ) -> (r: Metadata)
        ensures
            r@ == (MetadataView {
                level,
                target: target@,
                module_name: module_name@,
                file: file@,
                line,
                location: location@,
                thread_name: opt_string_view(thread_name),
                thread_id,
                hostname: opt_str_view(hostname),
            }),
    {
        Metadata {
            level,
            target,
            module_name,
            file,
            line,
            location,
            thread_name,
            thread_id,
            hostname,
        }
    }

    pub fn level(&self) -> (r: Level)
        ensures
            r == self@.level,
    {
        self.level
    }

    pub fn target(&self) -> (r: &'static str)
        ensures
            r@ == self@.target,
    {
        self.target
    }

    pub fn module_name(&self) -> (r: &'static str)
        ensures
            r@ == self@.module_name,
    {
        self.module_name
    }

    pub fn file(&self) -> (r: &'static str)
        ensures
            r@ == self@.file,
    {
        self.file
    }

    pub fn line(&self) -> (r: u32)
        ensures
            r == self@.line,
    {
        self.line
    }

    pub fn location(&self) -> (r: &'static str)
        ensures
            r@ == self@.location,
    {
        self.location
    }

    pub fn thread_name(&self) -> (r: Option<&str>)
        ensures
            opt_str_view(r) == self@.thread_name,
    {
        match &self.thread_name {
            Some(name) => Some(name.as_str()),
            None => None,
        }
    }

    pub fn thread_id(&self) -> (r: u64)
        ensures
            r == self@.thread_id,
    {
        self.thread_id
    }

    pub fn hostname(&self) -> (r: Option<&'static str>)
        ensures
            opt_str_view(r) == self@.hostname,
    {
        self.hostname
    }
}

} // verus!

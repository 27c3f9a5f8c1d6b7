use crate::filter::{built, DirectiveView, LevelFilter, StandardFilter, StandardFilterBuilder};
use crate::metadata::{opt_str_view, Level};
use crate::text::{has_prefix, parse_num, parse_usize, split, split_seq, trim, trim_seq};
use std::collections::HashMap;
use vstd::prelude::*;

verus! {

/// One frame of a stack trace in an incident report, as plain values.
pub struct BacktraceInfoView {
    pub file: Option<Seq<char>>,
    pub function: Option<Seq<char>>,
    pub line: Option<usize>,
    pub column: Option<usize>,
    pub has_code: bool,
}

/// One frame of a stack trace in an incident report.
#[derive(Clone, Debug)]
pub struct BacktraceInfo {
    pub file: Option<String>,
    pub function: Option<String>,
    pub line: Option<usize>,
    pub column: Option<usize>,
    pub code: Option<HashMap<String, String>>,
}

pub open spec fn opt_string_seq(o: Option<String>) -> Option<Seq<char>> {
    match o {
        Some(s) => Some(s@),
        None => None,
    }
}

impl View for BacktraceInfo {
    type V = BacktraceInfoView;

    open spec fn view(&self) -> BacktraceInfoView {
        BacktraceInfoView {
            file: opt_string_seq(self.file),
            function: opt_string_seq(self.function),
            line: self.line,
            column: self.column,
            has_code: self.code is Some,
        }
    }
}

pub open spec fn empty_info() -> BacktraceInfoView {
    BacktraceInfoView { file: None, function: None, line: None, column: None, has_code: false }
}

pub open spec fn info_is_empty(b: BacktraceInfoView) -> bool {
    b == empty_info()
}

impl BacktraceInfo {
    pub fn is_empty(&self) -> (r: bool)
        ensures
            r == info_is_empty(self@),
    {
        self.file.is_none() && self.function.is_none() && self.line.is_none()
            && self.column.is_none() && self.code.is_none()
    }
}

impl Default for BacktraceInfo {
    fn default() -> (r: BacktraceInfo)
        ensures
            r@ == empty_info(),
    {
        BacktraceInfo { file: None, function: None, line: None, column: None, code: None }
    }
}

/// A frame location line `file:line:column` after the leading `at `.
pub open spec fn with_position(item: BacktraceInfoView, pos: Seq<char>) -> BacktraceInfoView {
    let parts = split_seq(pos, ':');
    let line = if parts.len() > 1 && parse_num(parts[1]) is Some {
        parse_num(parts[1])
    } else {
        item.line
    };
    let column = if parts.len() > 2 && parse_num(parts[2]) is Some {
        parse_num(parts[2])
    } else {
        item.column
    };
    BacktraceInfoView { file: Some(parts[0]), line, column, ..item }
}

/// One trimmed line of a stack trace: a location line completes the frame
/// being read, any other line starts a new frame named by the line.
pub open spec fn trace_step(
    st: (Seq<BacktraceInfoView>, BacktraceInfoView),
    t: Seq<char>,
) -> (Seq<BacktraceInfoView>, BacktraceInfoView) {
    if "at "@.is_prefix_of(t) {
        (st.0.push(with_position(st.1, t.subrange(3, t.len() as int))), empty_info())
    } else {
        (st.0, BacktraceInfoView { function: Some(t), ..empty_info() })
    }
}

/// Frames read from the lines of a stack trace, empty lines skipped, and the
/// frame still being read.
pub open spec fn trace_fold(lines: Seq<Seq<char>>) -> (Seq<BacktraceInfoView>, BacktraceInfoView)
    decreases lines.len(),
{
    if lines.len() == 0 {
        (Seq::empty(), empty_info())
    } else {
        let st = trace_fold(lines.drop_last());
        if lines.last().len() == 0 {
            st
        } else {
            trace_step(st, trim_seq(lines.last()))
        }
    }
}

/// The frames of a rendered stack trace.
pub open spec fn parse_backtrace_spec(s: Seq<char>) -> Seq<BacktraceInfoView> {
    let st = trace_fold(split_seq(s, '\n'));
    if info_is_empty(st.1) {
        st.0
    } else {
        st.0.push(st.1)
    }
}

pub open spec fn info_views(v: Seq<BacktraceInfo>) -> Seq<BacktraceInfoView> {
    v.map_values(|b: BacktraceInfo| b@)
}

fn fill_position(item: &mut BacktraceInfo, pos: &str)
    ensures
        final(item)@ == with_position(old(item)@, pos@),
{
    let parts = split(pos, ':');
    proof {
        crate::text::lemma_split_nonempty(pos@, ':');
    }
    item.file = Some(parts[0].to_owned());
    if parts.len() > 1 {
        match parse_usize(parts[1]) {
            Some(l) => {
                item.line = Some(l);
            },
            None => {},
        }
    }
    if parts.len() > 2 {
        match parse_usize(parts[2]) {
            Some(c) => {
                item.column = Some(c);
            },
            None => {},
        }
    }
}

/// Splits a rendered stack trace into frames: a line that does not start
/// with `at ` names a function, and the `at file:line:column` line after it
/// completes that frame.
pub fn parse_backtrace(s: &str) -> (r: Vec<BacktraceInfo>)
    ensures
        info_views(r@) == parse_backtrace_spec(s@),
{
    let lines = split(s, '\n');
    let ghost lv = split_seq(s@, '\n');
    let mut infos: Vec<BacktraceInfo> = Vec::new();
    let mut item = BacktraceInfo::default();
    let mut i: usize = 0;
    assert(lv.subrange(0, 0) =~= Seq::<Seq<char>>::empty());
    assert(info_views(infos@) =~= Seq::<BacktraceInfoView>::empty());
    while i < lines.len()
        invariant
            crate::text::seq_views(lines@) == lv,
            i <= lines.len(),
            (info_views(infos@), item@) == trace_fold(lv.subrange(0, i as int)),
        decreases lines.len() - i,
    {
        let line = lines[i];
        assert(lv.subrange(0, i + 1).drop_last() =~= lv.subrange(0, i as int));
        assert(lv.subrange(0, i + 1).last() == line@);
        if line.unicode_len() > 0 {
            let t = trim(line);
            if has_prefix(t, "at ") {
                proof {
                    reveal_strlit("at ");
                }
                let pos = t.substring_char(3, t.unicode_len());
                fill_position(&mut item, pos);
                let ghost before = infos@;
                let ghost iv = item@;
                infos.push(item);
                assert(info_views(infos@) =~= info_views(before).push(iv));
                item = BacktraceInfo::default();
            } else {
                item = BacktraceInfo::default();
                item.function = Some(t.to_owned());
            }
        }
        i = i + 1;
    }
    assert(lv.subrange(0, i as int) =~= lv);
    if !item.is_empty() {
        let ghost before = infos@;
        let ghost iv = item@;
        infos.push(item);
        assert(info_views(infos@) =~= info_views(before).push(iv));
    }
    infos
}

/// Severity of an incident report.
#[derive(Debug, Clone, PartialEq, Eq, Structural)]
pub enum Severity {
    Debug,
    Info,
    Notice,
    Warning,
    Error,
    Critical,
    Alert,
    Emergency,
    Invalid,
}

/// Report severity of a log level; `Trace` has none.
pub open spec fn severity_of(l: Level) -> Severity {
    match l {
        Level::Crash => Severity::Critical,
        Level::Error => Severity::Error,
        Level::Warn => Severity::Warning,
        Level::Info => Severity::Info,
        Level::Debug => Severity::Debug,
        Level::Trace => Severity::Invalid,
    }
}

pub open spec fn severity_name(s: Severity) -> Seq<char> {
    match s {
        Severity::Debug => "debug"@,
        Severity::Info => "info"@,
        Severity::Notice => "notice"@,
        Severity::Warning => "warning"@,
        Severity::Error => "error"@,
        Severity::Critical => "critical"@,
        Severity::Alert => "alert"@,
        Severity::Emergency => "emergency"@,
        Severity::Invalid => "invalid"@,
    }
}

impl Severity {
    pub fn from_level(level: Level) -> (r: Severity)
        requires
            level != Level::Trace,
        ensures
            r == severity_of(level),
    {
        match level {
            Level::Crash => Severity::Critical,
            Level::Error => Severity::Error,
            Level::Warn => Severity::Warning,
            Level::Info => Severity::Info,
            _ => Severity::Debug,
        }
    }

    /// Lower-case name of the severity.
    pub fn as_str(&self) -> (r: &'static str)
        ensures
            r@ == severity_name(*self),
    {
        match self {
            Severity::Debug => "debug",
            Severity::Info => "info",
            Severity::Notice => "notice",
            Severity::Warning => "warning",
            Severity::Error => "error",
            Severity::Critical => "critical",
            Severity::Alert => "alert",
            Severity::Emergency => "emergency",
            Severity::Invalid => "invalid",
        }
    }
}

/// The software that sends a report.
#[derive(Debug)]
pub struct NotifierInfo {
    pub name: Option<String>,
    pub version: Option<String>,
    pub url: Option<String>,
}

/// The user concerned by a report.
#[derive(Debug)]
pub struct UserInfo {
    pub id: Option<String>,
    pub name: Option<String>,
    pub email: Option<String>,
}

/// One error of a report.
#[derive(Debug)]
pub struct ErrorInfo {
    pub type_: String,
    pub message: String,
    pub backtrace: Option<Vec<BacktraceInfo>>,
}

/// Where a reported error happened.
#[derive(Debug)]
pub struct Context {
    pub notifier: Option<NotifierInfo>,
    pub environment: Option<String>,
    pub severity: Option<Severity>,
    pub component: Option<String>,
    pub action: Option<String>,
    pub os: Option<String>,
    pub hostname: Option<String>,
    pub language: Option<String>,
    pub version: Option<String>,
    pub url: Option<String>,
    pub user_agent: Option<String>,
    pub user_addr: Option<String>,
    pub remote_addr: Option<String>,
    pub root_directory: Option<String>,
    pub user: Option<UserInfo>,
    pub route: Option<String>,
    pub http_method: Option<String>,
}

/// An incident report.
#[derive(Debug)]
pub struct Notice {
    pub errors: Vec<ErrorInfo>,
    pub context: Context,
    pub environment: Option<HashMap<String, String>>,
    pub session: Option<HashMap<String, String>>,
    pub params: Option<HashMap<String, String>>,
}

/// Builds incident reports for one deployment environment.
pub struct AirbrakeFormatter {
    environment: Option<String>,
}

impl AirbrakeFormatter {
    pub closed spec fn environment_view(&self) -> Option<Seq<char>> {
        opt_string_seq(self.environment)
    }

    pub fn new(environment: Option<String>) -> (r: AirbrakeFormatter)
        ensures
            r.environment_view() == opt_string_seq(environment),
    {
        AirbrakeFormatter { environment }
    }

    /// The report of one event: its message (empty when it has none), the
    /// frames of its stack trace, and a context naming the environment, the
    /// event's severity and host, and the given system and version.
    pub fn notice(
        &self,
        message: Option<&str>,
        backtrace: Option<&str>,
        level: Level,
        hostname: Option<&str>,
        os: &str,
        version: &str,
        notifier: NotifierInfo,
    ) -> (r: Notice)
        requires
            level != Level::Trace,
        ensures
            r.errors@.len() == 1,
            r.errors@[0].type_@ == Seq::<char>::empty(),
            r.errors@[0].message@ == (match message {
                Some(m) => m@,
                None => Seq::<char>::empty(),
            }),
            r.errors@[0].backtrace is Some <==> backtrace is Some,
            r.errors@[0].backtrace matches Some(b) ==> info_views(b@) == parse_backtrace_spec(
                backtrace.unwrap()@,
            ),
            r.context.notifier == Some(notifier),
            opt_string_seq(r.context.environment) == self.environment_view(),
            r.context.severity == Some(severity_of(level)),
            opt_string_seq(r.context.hostname) == opt_str_view(hostname),
            opt_string_seq(r.context.os) == Some(os@),
            opt_string_seq(r.context.version) == Some(version@),
            r.context.component is None && r.context.action is None && r.context.language is None
                && r.context.url is None && r.context.user_agent is None && r.context.user_addr is None
                && r.context.remote_addr is None && r.context.root_directory is None
                && r.context.user is None && r.context.route is None && r.context.http_method is None,
            r.environment is None && r.session is None && r.params is None,
    {
        let message = match message {
            Some(m) => m.to_owned(),
            None => String::new(),
        };
        let backtrace = match backtrace {
            Some(b) => Some(parse_backtrace(b)),
            None => None,
        };
        let error_info = ErrorInfo { type_: String::new(), message, backtrace };
        let environment = match &self.environment {
            Some(e) => Some(e.clone()),
            None => None,
        };
        let hostname = match hostname {
            Some(h) => Some(h.to_owned()),
            None => None,
        };
        let context = Context {
            notifier: Some(notifier),
            environment,
            severity: Some(Severity::from_level(level)),
            component: None,
            action: None,
            os: Some(os.to_owned()),
            hostname,
            language: None,
            version: Some(version.to_owned()),
            url: None,
            user_agent: None,
            user_addr: None,
            remote_addr: None,
            root_directory: None,
            user: None,
            route: None,
            http_method: None,
        };
        let mut errors: Vec<ErrorInfo> = Vec::new();
        errors.push(error_info);
        Notice { errors, context, environment: None, session: None, params: None }
    }
}

/// The incident-report sink: reports go to `endpoint` for events at `Error`
/// severity and above.
pub struct AirbrakeLogger {
    endpoint: String,
    filter: StandardFilter,
    formatter: AirbrakeFormatter,
}

impl AirbrakeLogger {
    pub closed spec fn endpoint_view(&self) -> Seq<char> {
        self.endpoint@
    }

    pub closed spec fn filter_view(&self) -> Seq<DirectiveView> {
        self.filter@
    }

    pub closed spec fn environment_view(&self) -> Option<Seq<char>> {
        self.formatter.environment_view()
    }

    pub fn new(endpoint: String, environment: Option<String>) -> (r: AirbrakeLogger)
        ensures
            r.endpoint_view() == endpoint@,
            r.filter_view() == built(seq![DirectiveView { name: None, level: LevelFilter::Error }]),
            r.environment_view() == opt_string_seq(environment),
    {
        let mut b = StandardFilterBuilder::new();
        b.filter_level(LevelFilter::Error);
        let filter = b.build();
        let formatter = AirbrakeFormatter::new(environment);
        AirbrakeLogger { endpoint, filter, formatter }
    }

    pub fn endpoint(&self) -> (r: &str)
        ensures
            r@ == self.endpoint_view(),
    {
        self.endpoint.as_str()
    }

    pub fn filter(&self) -> (r: &StandardFilter)
        ensures
            r@ == self.filter_view(),
    {
        &self.filter
    }

    pub fn formatter(&self) -> (r: &AirbrakeFormatter)
        ensures
            r.environment_view() == self.environment_view(),
    {
        &self.formatter
    }
}

} // verus!

use crate::airbrake::{opt_string_seq, AirbrakeLogger};
use crate::filter::{
    built, level_filter_of, parsed_directives, DirectiveView, LevelFilter, StandardFilter,
    StandardFilterBuilder,
};
use crate::metadata::{opt_str_view, Level};
use crate::text::split_seq;
use vstd::prelude::*;

verus! {

/// Default capacity of the asynchronous queue; events beyond it are dropped.
pub const CHANNEL_SIZE: usize = 10000;

/// Configuration of the default logger, as plain values.
pub struct BuilderView {
    pub file: Option<Seq<char>>,
    pub level: Level,
    pub is_async: bool,
    pub channel_size: usize,
    pub tcp_level: Level,
    pub tcp_address: Option<Seq<char>>,
    pub airbrake_host: Option<Seq<char>>,
    pub airbrake_project_id: Option<Seq<char>>,
    pub airbrake_project_key: Option<Seq<char>>,
    pub airbrake_environment: Option<Seq<char>>,
}

/// Configuration of the default logger.
pub struct DefaultLoggerBuilder {
    file: Option<String>,
    level: Level,
    is_async: bool,
    channel_size: usize,
    tcp_level: Level,
    tcp_address: Option<String>,
    airbrake_host: Option<String>,
    airbrake_project_id: Option<String>,
    airbrake_project_key: Option<String>,
    airbrake_environment: Option<String>,
}

impl View for DefaultLoggerBuilder {
    type V = BuilderView;

    closed spec fn view(&self) -> BuilderView {
        BuilderView {
            file: opt_string_seq(self.file),
            level: self.level,
            is_async: self.is_async,
            channel_size: self.channel_size,
            tcp_level: self.tcp_level,
            tcp_address: opt_string_seq(self.tcp_address),
            airbrake_host: opt_string_seq(self.airbrake_host),
            airbrake_project_id: opt_string_seq(self.airbrake_project_id),
            airbrake_project_key: opt_string_seq(self.airbrake_project_key),
            airbrake_environment: opt_string_seq(self.airbrake_environment),
        }
    }
}

/// Address of the incident-report endpoint, when host, project id and
/// project key are all configured.
pub open spec fn airbrake_url(v: BuilderView) -> Option<Seq<char>> {
    match (v.airbrake_host, v.airbrake_project_id, v.airbrake_project_key) {
        (Some(h), Some(i), Some(k)) => Some(
            h + "/api/v3/projects/"@ + i + "/notices?key="@ + k,
        ),
        _ => None,
    }
}

/// Directives of a sink's filter: those of the directive list read from the
/// environment when there is one, else one global directive at `level`.
pub open spec fn sink_directives(directives: Option<Seq<char>>, level: Level) -> Seq<
    DirectiveView,
> {
    built(
        match directives {
            Some(d) => parsed_directives(split_seq(d, ',')),
            None => seq![DirectiveView { name: None, level: level_filter_of(level) }],
        },
    )
}

/// A sink to be set up, as plain values.
pub enum SinkView {
    LocalConsole(Seq<DirectiveView>),
    LocalFile(Seq<char>, Seq<DirectiveView>),
    Tcp(Seq<char>, Seq<DirectiveView>),
    Airbrake(Seq<char>, Option<Seq<char>>, Seq<DirectiveView>),
}

/// A sink to be set up.
pub enum SinkPlan {
    LocalConsole(StandardFilter),
    LocalFile(String, StandardFilter),
    Tcp(String, StandardFilter),
    Airbrake(AirbrakeLogger),
}

pub open spec fn sink_view(s: SinkPlan) -> SinkView {
    match s {
        SinkPlan::LocalConsole(f) => SinkView::LocalConsole(f@),
        SinkPlan::LocalFile(p, f) => SinkView::LocalFile(p@, f@),
        SinkPlan::Tcp(a, f) => SinkView::Tcp(a@, f@),
        SinkPlan::Airbrake(l) => SinkView::Airbrake(l.endpoint_view(), l.environment_view(), l.filter_view()),
    }
}

pub open spec fn sink_views(s: Seq<SinkPlan>) -> Seq<SinkView> {
    s.map_values(|p: SinkPlan| sink_view(p))
}

/// The sinks of a configuration, in registration order: the file sink (or
/// the console when no file is set), the network sink in the asynchronous
/// configuration, and the incident-report sink when its endpoint is complete.
pub open spec fn planned_sinks(
    v: BuilderView,
    log_directives: Option<Seq<char>>,
    tcp_directives: Option<Seq<char>>,
) -> Seq<SinkView> {
    let main = sink_directives(log_directives, v.level);
    let first = match v.file {
        Some(f) => SinkView::LocalFile(f, main),
        None => SinkView::LocalConsole(main),
    };
    let with_tcp = match v.tcp_address {
        Some(a) => if v.is_async {
            seq![first, SinkView::Tcp(a, sink_directives(tcp_directives, v.tcp_level))]
        } else {
            seq![first]
        },
        None => seq![first],
    };
    match airbrake_url(v) {
        Some(u) => with_tcp.push(
            SinkView::Airbrake(
                u,
                v.airbrake_environment,
                built(seq![DirectiveView { name: None, level: LevelFilter::Error }]),
            ),
        ),
        None => with_tcp,
    }
}

/// What the default logger is made of.
pub struct LoggerPlan {
    pub is_async: bool,
    pub channel_size: usize,
    /// Filters a producer checks before taking a snapshot (asynchronous
    /// configuration only).
    pub prefilters: Vec<StandardFilter>,
    pub sinks: Vec<SinkPlan>,
}

/// A configuration that cannot be set up.
#[derive(Debug, Clone, Copy, PartialEq, Eq, Structural)]
pub enum BuildError {
    /// The network sink is only available in the asynchronous configuration.
    TcpRequiresAsync,
}

fn copy_opt(o: &Option<String>) -> (r: Option<String>)
    ensures
        r == *o,
{
    match o {
        Some(s) => Some(s.clone()),
        None => None,
    }
}

fn sink_filter(directives: Option<&str>, level: Level) -> (r: StandardFilter)
    ensures
        r@ == sink_directives(opt_str_view(directives), level),
{
    let mut b = StandardFilterBuilder::new();
    match directives {
        Some(d) => {
            b.parse(d);
        },
        None => {
            b.filter_level(LevelFilter::from_level(level));
        },
    }
    b.build()
}

impl DefaultLoggerBuilder {
    pub fn new() -> (r: DefaultLoggerBuilder)
        ensures
            r@ == (BuilderView {
                file: None,
                level: Level::Info,
                is_async: false,
                channel_size: CHANNEL_SIZE,
                tcp_level: Level::Info,
                tcp_address: None,
                airbrake_host: None,
                airbrake_project_id: None,
                airbrake_project_key: None,
                airbrake_environment: None,
            }),
    {
        DefaultLoggerBuilder {
            file: None,
            level: Level::Info,
            is_async: false,
            channel_size: CHANNEL_SIZE,
            tcp_level: Level::Info,
            tcp_address: None,
            airbrake_host: None,
            airbrake_project_id: None,
            airbrake_project_key: None,
            airbrake_environment: None,
        }
    }

    /// Logs to this file instead of the console.
    pub fn file(&mut self, file: String) -> (r: &mut Self)
        ensures
            (*r)@ == (BuilderView { file: Some(file@), ..old(self)@ }),
            *final(self) == *final(r),
    {
        self.file = Some(file);
        self
    }

    pub fn level(&mut self, level: Level) -> (r: &mut Self)
        ensures
            (*r)@ == (BuilderView { level, ..old(self)@ }),
            *final(self) == *final(r),
    {
        self.level = level;
        self
    }

    pub fn is_async(&mut self, is_async: bool) -> (r: &mut Self)
        ensures
            (*r)@ == (BuilderView { is_async, ..old(self)@ }),
            *final(self) == *final(r),
    {
        self.is_async = is_async;
        self
    }

    pub fn channel_size(&mut self, channel_size: usize) -> (r: &mut Self)
        ensures
            (*r)@ == (BuilderView { channel_size, ..old(self)@ }),
            *final(self) == *final(r),
    {
        self.channel_size = channel_size;
        self
    }

    pub fn tcp_level(&mut self, tcp_level: Level) -> (r: &mut Self)
        ensures
            (*r)@ == (BuilderView { tcp_level, ..old(self)@ }),
            *final(self) == *final(r),
    {
        self.tcp_level = tcp_level;
        self
    }

    pub fn tcp_address(&mut self, tcp_address: String) -> (r: &mut Self)
        ensures
            (*r)@ == (BuilderView { tcp_address: Some(tcp_address@), ..old(self)@ }),
            *final(self) == *final(r),
    {
        self.tcp_address = Some(tcp_address);
        self
    }

    pub fn airbrake_host(&mut self, airbrake_host: String) -> (r: &mut Self)
        ensures
            (*r)@ == (BuilderView { airbrake_host: Some(airbrake_host@), ..old(self)@ }),
            *final(self) == *final(r),
    {
        self.airbrake_host = Some(airbrake_host);
        self
    }

    pub fn airbrake_project_id(&mut self, airbrake_project_id: String) -> (r: &mut Self)
        ensures
            (*r)@ == (BuilderView { airbrake_project_id: Some(airbrake_project_id@), ..old(self)@ }),
            *final(self) == *final(r),
    {
        self.airbrake_project_id = Some(airbrake_project_id);
        self
    }

    pub fn airbrake_project_key(&mut self, airbrake_project_key: String) -> (r: &mut Self)
        ensures
            (*r)@ == (BuilderView { airbrake_project_key: Some(airbrake_project_key@), ..old(self)@ }),
            *final(self) == *final(r),
    {
        self.airbrake_project_key = Some(airbrake_project_key);
        self
    }

    pub fn airbrake_environment(&mut self, airbrake_environment: String) -> (r: &mut Self)
        ensures
            (*r)@ == (BuilderView {
                airbrake_environment: Some(airbrake_environment@),
                ..old(self)@
            }),
            *final(self) == *final(r),
    {
        self.airbrake_environment = Some(airbrake_environment);
        self
    }

    /// Address of the incident-report endpoint, when host, project id and
    /// project key are all set.
    pub fn airbrake_endpoint(&self) -> (r: Option<String>)
        ensures
            opt_string_seq(r) == airbrake_url(self@),
    {
        match (&self.airbrake_host, &self.airbrake_project_id, &self.airbrake_project_key) {
            (Some(h), Some(i), Some(k)) => {
                let mut url = h.clone();
                url.append("/api/v3/projects/");
                url.append(i.as_str());
                url.append("/notices?key=");
                url.append(k.as_str());
                Some(url)
            },
            _ => None,
        }
    }

    /// Decides what the default logger is made of. `log_directives` and
    /// `tcp_directives` are the directive lists read from the environment,
    /// if any; without one a sink's filter has one global directive at the
    /// configured level.
    pub fn plan(&self, log_directives: Option<&str>, tcp_directives: Option<&str>) -> (r: Result<
        LoggerPlan,
        BuildError,
    >)
        ensures
            r is Err <==> (!self@.is_async && self@.tcp_address is Some),
            r matches Ok(p) ==> {
                &&& p.is_async == self@.is_async
                &&& p.channel_size == self@.channel_size
                &&& sink_views(p.sinks@) == planned_sinks(
                    self@,
                    opt_str_view(log_directives),
                    opt_str_view(tcp_directives),
                )
                &&& p.is_async ==> p.prefilters@.len() == 1 && p.prefilters@[0]@ == sink_directives(
                    opt_str_view(log_directives),
                    self@.level,
                )
                &&& !p.is_async ==> p.prefilters@.len() == 0
            },
    {
        if !self.is_async && self.tcp_address.is_some() {
            return Err(BuildError::TcpRequiresAsync);
        }
        let filter = sink_filter(log_directives, self.level);
        let mut prefilters: Vec<StandardFilter> = Vec::new();
        if self.is_async {
            prefilters.push(filter.duplicate());
        }
        let mut sinks: Vec<SinkPlan> = Vec::new();
        let ghost main = filter@;
        let first = match &self.file {
            Some(f) => SinkPlan::LocalFile(f.clone(), filter),
            None => SinkPlan::LocalConsole(filter),
        };
        sinks.push(first);
        let ghost v1 = sink_views(sinks@);
        if self.is_async {
            match &self.tcp_address {
                Some(a) => {
                    let tf = sink_filter(tcp_directives, self.tcp_level);
                    sinks.push(SinkPlan::Tcp(a.clone(), tf));
                },
                None => {},
            }
        }
        let ghost v2 = sink_views(sinks@);
        match self.airbrake_endpoint() {
            Some(endpoint) => {
                let env = copy_opt(&self.airbrake_environment);
                let logger = AirbrakeLogger::new(endpoint, env);
                sinks.push(SinkPlan::Airbrake(logger));
            },
            None => {},
        }
        assert(sink_views(sinks@) =~= planned_sinks(
            self@,
            opt_str_view(log_directives),
            opt_str_view(tcp_directives),
        ));
        Ok(LoggerPlan { is_async: self.is_async, channel_size: self.channel_size, prefilters, sinks })
    }
}

} // verus!

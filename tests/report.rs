use logcore::{
    parse_backtrace, status_accepted, AirbrakeFormatter, AirbrakeLogger, BuildError,
    DefaultLoggerBuilder, Filter, Level, Metadata, NotifierInfo, Severity, SinkPlan,
};

fn meta(level: Level, module: &'static str) -> Metadata {
    Metadata::new(level, module, module, "src/lib.rs", 1, "src/lib.rs:1", None, 7, None)
}

#[test]
fn backtrace_lines_become_frames() {
    let text = "  0: my::func\n             at src/main.rs:10:5\n  1: other\n\n             at src/lib.rs:x\n  2: tail";
    let frames = parse_backtrace(text);
    assert_eq!(frames.len(), 3);
    assert_eq!(frames[0].function.as_deref(), Some("0: my::func"));
    assert_eq!(frames[0].file.as_deref(), Some("src/main.rs"));
    assert_eq!(frames[0].line, Some(10));
    assert_eq!(frames[0].column, Some(5));
    assert_eq!(frames[1].function.as_deref(), Some("1: other"));
    assert_eq!(frames[1].file.as_deref(), Some("src/lib.rs"));
    assert_eq!(frames[1].line, None);
    assert_eq!(frames[2].function.as_deref(), Some("2: tail"));
    assert!(frames[2].file.is_none());
    assert!(!frames[2].is_empty());
    assert!(parse_backtrace("").is_empty());
}

#[test]
fn severity_follows_level() {
    assert_eq!(Severity::from_level(Level::Crash), Severity::Critical);
    assert_eq!(Severity::from_level(Level::Warn), Severity::Warning);
    assert_eq!(Severity::from_level(Level::Debug).as_str(), "debug");
    assert_eq!(Severity::Invalid.as_str(), "invalid");
}

#[test]
fn notice_carries_message_backtrace_and_context() {
    let f = AirbrakeFormatter::new(Some("prod".to_string()));
    let notifier = NotifierInfo { name: Some("n".to_string()), version: None, url: None };
    let n = f.notice(Some("boom"), Some("f\nat a.rs:1:2"), Level::Error, Some("h"), "linux", "1.0", notifier);
    assert_eq!(n.errors.len(), 1);
    assert_eq!(n.errors[0].message, "boom");
    assert_eq!(n.errors[0].type_, "");
    assert_eq!(n.errors[0].backtrace.as_ref().unwrap().len(), 1);
    assert_eq!(n.context.environment.as_deref(), Some("prod"));
    assert_eq!(n.context.severity, Some(Severity::Error));
    assert_eq!(n.context.hostname.as_deref(), Some("h"));
    assert_eq!(n.context.os.as_deref(), Some("linux"));
    assert_eq!(n.context.version.as_deref(), Some("1.0"));
    let empty = f.notice(None, None, Level::Crash, None, "linux", "1.0", NotifierInfo { name: None, version: None, url: None });
    assert_eq!(empty.errors[0].message, "");
    assert!(empty.errors[0].backtrace.is_none());
}

#[test]
fn airbrake_logger_reports_errors_only() {
    let l = AirbrakeLogger::new("http://x".to_string(), None);
    assert_eq!(l.endpoint(), "http://x");
    assert!(l.filter().enabled(&meta(Level::Error, "a")));
    assert!(!l.filter().enabled(&meta(Level::Warn, "a")));
}

#[test]
fn endpoint_needs_host_project_and_key() {
    let mut b = DefaultLoggerBuilder::new();
    b.airbrake_host("https://api.example".to_string()).airbrake_project_id("12".to_string());
    assert_eq!(b.airbrake_endpoint(), None);
    b.airbrake_project_key("SECRET-REDACTED".to_string());
    assert_eq!(
        b.airbrake_endpoint(),
        Some("https://api.example/api/v3/projects/12/notices?key=SECRET-REDACTED".to_string())
    );
}

#[test]
fn plan_of_the_default_configuration() {
    let b = DefaultLoggerBuilder::new();
    let p = b.plan(None, None).unwrap();
    assert!(!p.is_async);
    assert_eq!(p.channel_size, 10000);
    assert!(p.prefilters.is_empty());
    assert_eq!(p.sinks.len(), 1);
    match &p.sinks[0] {
        SinkPlan::LocalConsole(f) => {
            assert!(f.enabled(&meta(Level::Info, "a")));
            assert!(!f.enabled(&meta(Level::Debug, "a")));
        }
        _ => panic!("expected the console sink"),
    }
}

#[test]
fn plan_of_an_async_configuration() {
    let mut b = DefaultLoggerBuilder::new();
    b.is_async(true)
        .file("/tmp/log.txt".to_string())
        .tcp_address("127.0.0.1:5170".to_string())
        .tcp_level(Level::Warn)
        .channel_size(8)
        .level(Level::Debug);
    let p = b.plan(Some("db=trace"), None).unwrap();
    assert!(p.is_async);
    assert_eq!(p.channel_size, 8);
    assert_eq!(p.prefilters.len(), 1);
    assert!(p.prefilters[0].enabled(&meta(Level::Trace, "db")));
    assert!(!p.prefilters[0].enabled(&meta(Level::Error, "web")));
    assert_eq!(p.sinks.len(), 2);
    match &p.sinks[0] {
        SinkPlan::LocalFile(path, _) => assert_eq!(path, "/tmp/log.txt"),
        _ => panic!("expected the file sink"),
    }
    match &p.sinks[1] {
        SinkPlan::Tcp(addr, f) => {
            assert_eq!(addr, "127.0.0.1:5170");
            assert!(f.enabled(&meta(Level::Warn, "x")));
            assert!(!f.enabled(&meta(Level::Info, "x")));
        }
        _ => panic!("expected the network sink"),
    }
}

#[test]
fn network_sink_requires_async() {
    let mut b = DefaultLoggerBuilder::new();
    b.tcp_address("127.0.0.1:1".to_string());
    assert_eq!(b.plan(None, None).err(), Some(BuildError::TcpRequiresAsync));
}

#[test]
fn only_ok_and_created_acknowledge_a_report() {
    assert!(status_accepted(200));
    assert!(status_accepted(201));
    assert!(!status_accepted(204));
    assert!(!status_accepted(500));
}

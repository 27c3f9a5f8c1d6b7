use logcore::{Directive, Filter, Level, LevelFilter, Metadata, StandardFilter, StandardFilterBuilder};

fn meta(level: Level, module: &'static str) -> Metadata {
    Metadata::new(level, module, module, "src/lib.rs", 1, "src/lib.rs:1", None, 7, None)
}

fn enabled(f: &StandardFilter, level: Level, module: &'static str) -> bool {
    f.enabled(&meta(level, module))
}

#[test]
fn default_filter_enables_error_and_above_only() {
    let f = StandardFilterBuilder::new().build();
    assert!(enabled(&f, Level::Crash, "any::module"));
    assert!(enabled(&f, Level::Error, "any::module"));
    assert!(!enabled(&f, Level::Warn, "any::module"));
    assert!(!enabled(&f, Level::Info, "any::module"));
    assert!(!enabled(&f, Level::Debug, "any::module"));
    assert!(!enabled(&f, Level::Trace, "any::module"));
}

#[test]
fn module_directive_decides_for_its_modules() {
    let f = StandardFilter::builder().parse("app::db=debug").build();
    assert!(enabled(&f, Level::Debug, "app::db::pool"));
    assert!(!enabled(&f, Level::Trace, "app::db::pool"));
    // No global directive: other modules fall through to nothing and are disabled.
    assert!(!enabled(&f, Level::Error, "app::http"));
    assert!(!enabled(&f, Level::Crash, "app::http"));
}

#[test]
fn other_modules_fall_through_to_the_global_directive() {
    let f = StandardFilter::builder().parse("warn,app::db=debug").build();
    assert!(enabled(&f, Level::Debug, "app::db::pool"));
    assert!(!enabled(&f, Level::Trace, "app::db::pool"));
    assert!(enabled(&f, Level::Warn, "app::http"));
    assert!(!enabled(&f, Level::Info, "app::http"));
}

#[test]
fn longest_matching_prefix_wins_regardless_of_order() {
    let f = StandardFilter::builder()
        .filter_module("app::db", LevelFilter::Trace)
        .filter_module("app", LevelFilter::Error)
        .filter_level(LevelFilter::Off)
        .build();
    assert!(enabled(&f, Level::Trace, "app::db::pool"));
    assert!(!enabled(&f, Level::Warn, "app::http"));
    assert!(enabled(&f, Level::Error, "app::http"));
    assert!(!enabled(&f, Level::Crash, "other"));
}

#[test]
fn unmatched_shorter_directive_changes_nothing() {
    let base = StandardFilter::builder().parse("info,app::db=debug").build();
    let more = StandardFilter::builder().parse("info,app::db=debug,zz=trace").build();
    for level in [Level::Crash, Level::Error, Level::Warn, Level::Info, Level::Debug, Level::Trace] {
        assert_eq!(enabled(&base, level, "app::db::pool"), enabled(&more, level, "app::db::pool"));
        assert_eq!(enabled(&base, level, "app::http"), enabled(&more, level, "app::http"));
    }
}

#[test]
fn malformed_directives_are_skipped() {
    let f = StandardFilter::builder().parse("a=b=c,x=bogus,error").build();
    assert!(enabled(&f, Level::Error, "x"));
    assert!(!enabled(&f, Level::Warn, "x"));
}

#[test]
fn directive_forms() {
    assert!(Directive::parse("crate1::mod1=error").is_ok());
    assert!(Directive::parse("crate2=").is_ok());
    assert!(Directive::parse("info").is_ok());
    assert!(Directive::parse("crate3::foo").is_ok());
    assert!(Directive::parse("a=b=c").is_err());
    assert!(Directive::parse("m=loud").is_err());
    let f = StandardFilter::builder().parse(" crate2 = ").build();
    assert!(enabled(&f, Level::Trace, "crate2::x"));
    let g = StandardFilter::builder().parse("crate3::foo").build();
    assert!(enabled(&g, Level::Trace, "crate3::foo::bar"));
    assert!(!enabled(&g, Level::Crash, "crate3"));
}

#[test]
fn off_disables_everything() {
    let f = StandardFilter::builder().parse("OFF").build();
    assert!(!enabled(&f, Level::Crash, "a"));
}

#[test]
fn level_names_parse_ignoring_case() {
    assert_eq!("crash".parse::<Level>().unwrap(), Level::Crash);
    assert_eq!("Warn".parse::<Level>().unwrap(), Level::Warn);
    assert_eq!("TRACE".parse::<Level>().unwrap(), Level::Trace);
    assert!("verbose".parse::<Level>().is_err());
    assert_eq!("off".parse::<LevelFilter>().unwrap(), LevelFilter::Off);
    assert_eq!("debug".parse::<LevelFilter>().unwrap(), LevelFilter::Debug);
    assert!("".parse::<LevelFilter>().is_err());
    assert_eq!(LevelFilter::from(Level::Info), LevelFilter::Info);
    assert_eq!(LevelFilter::max(), LevelFilter::Trace);
    assert_eq!(Level::Debug.as_str(), "DEBUG");
    assert_eq!(Level::from_usize(2), Some(Level::Warn));
    assert_eq!(Level::from_usize(6), None);
}

#[test]
fn metadata_keeps_its_parts() {
    let m = Metadata::new(
        Level::Info,
        "tgt",
        "app::m",
        "src/m.rs",
        12,
        "src/m.rs:12",
        Some("worker".to_string()),
        99,
        Some("host1"),
    );
    assert_eq!(m.level(), Level::Info);
    assert_eq!(m.target(), "tgt");
    assert_eq!(m.module_name(), "app::m");
    assert_eq!(m.file(), "src/m.rs");
    assert_eq!(m.line(), 12);
    assert_eq!(m.location(), "src/m.rs:12");
    assert_eq!(m.thread_name(), Some("worker"));
    assert_eq!(m.thread_id(), 99);
    assert_eq!(m.hostname(), Some("host1"));
}

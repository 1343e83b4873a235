use fungus::logs::{Level, LogOpts, Logger, Opt, OptsExt, Style};

#[test]
fn level_of_options() {
    let none: Vec<Opt> = vec![];
    assert_eq!(none.level(), Level::Info);
    let opts = vec![Opt::Filepath("/tmp/log".to_string()), Opt::Level(Level::Trace), Opt::Level(Level::Error)];
    assert_eq!(opts.level(), Level::Trace);
    let only_file = vec![Opt::Filepath("/tmp/log".to_string())];
    assert_eq!(only_file.level(), Level::Info);
}

#[test]
fn logger_filters_by_level() {
    let logger = Logger { level: Level::Info };
    assert!(logger.enabled(Level::Error));
    assert!(logger.enabled(Level::Warn));
    assert!(logger.enabled(Level::Info));
    assert!(!logger.enabled(Level::Debug));
    assert!(!logger.enabled(Level::Trace));
    let trace = Logger { level: Level::Trace };
    assert!(trace.enabled(Level::Trace));
}

#[test]
fn level_styles() {
    assert_eq!(Logger::style(Level::Error), Style::Red);
    assert_eq!(Logger::style(Level::Warn), Style::Yellow);
    assert_eq!(Logger::style(Level::Info), Style::Cyan);
    assert_eq!(Logger::style(Level::Debug), Style::Normal);
    assert_eq!(Logger::style(Level::Trace), Style::Dimmed);
}

#[test]
fn test_level_from_str() {
    assert_eq!(Logger::level_from_str("error"), Level::Error);
    assert_eq!(Logger::level_from_str("Error"), Level::Error);
    assert_eq!(Logger::level_from_str("warn"), Level::Warn);
    assert_eq!(Logger::level_from_str("Warn"), Level::Warn);
    assert_eq!(Logger::level_from_str("info"), Level::Info);
    assert_eq!(Logger::level_from_str("Info"), Level::Info);
    assert_eq!(Logger::level_from_str("debug"), Level::Debug);
    assert_eq!(Logger::level_from_str("Debug"), Level::Debug);
    assert_eq!(Logger::level_from_str("trace"), Level::Trace);
    assert_eq!(Logger::level_from_str("Trace"), Level::Trace);
    assert_eq!(Logger::level_from_str("TRACE"), Level::Trace);
    assert_eq!(Logger::level_from_str("verbose"), Level::Info);
    assert_eq!(Logger::level_from_str(""), Level::Info);
}

#[test]
fn logging_decisions() {
    let mut opts = LogOpts::new();
    assert_eq!(opts, LogOpts { level: Level::Info, silent: false, color: true, file: false, stdout: true, buffer: false });
    opts.enable_buffer();
    assert!(opts.buffer && !opts.stdout);
    opts.color = false;
    let e = opts.log(Level::Error).unwrap();
    assert_eq!(e.label, "ERROR");
    assert_eq!(e.style, Style::Normal);
    assert!(e.buffer && !e.stdout && !e.file);
    assert!(opts.log(Level::Debug).is_none());
    opts.level = Level::Trace;
    assert_eq!(opts.log(Level::Debug).unwrap().label, "DEBUG");
    opts.color = true;
    assert_eq!(opts.log(Level::Trace).unwrap().style, Style::Dimmed);
    assert_eq!(opts.log(Level::Warn).unwrap().style, Style::Yellow);
    opts.file = true;
    let f = opts.fatal().unwrap();
    assert_eq!(f.label, "FATAL");
    assert_eq!(f.style, Style::Red);
    assert!(f.file && f.buffer);
    opts.silent = true;
    assert!(opts.log(Level::Error).is_none());
    assert!(opts.fatal().is_none());
    opts.disable_buffer();
    assert!(!opts.buffer && opts.stdout);
}

use rustcraft::console::{
    _log_level_from_str, crash_file_name, level_colour, log_segments, panic_header, panic_location, Colour, epoch_stamp_of, file_log_level, format_epoch_stamp, is_filtered_module, rfc3339_now, log_line,
    short_source_path, term_log_level, Console, LogLevel,
};

#[test]
fn exact_lowercase_level_names() {
    assert_eq!(_log_level_from_str("trace"), Some(LogLevel::Trace));
    assert_eq!(_log_level_from_str("debug"), Some(LogLevel::Debug));
    assert_eq!(_log_level_from_str("info"), Some(LogLevel::Info));
    assert_eq!(_log_level_from_str("warn"), Some(LogLevel::Warn));
    assert_eq!(_log_level_from_str("error"), Some(LogLevel::Error));
    assert_eq!(_log_level_from_str("Error"), None);
    assert_eq!(_log_level_from_str(""), None);
}

#[test]
fn setting_values_are_read_ignoring_case() {
    assert_eq!(term_log_level("DEBUG"), Some(LogLevel::Debug));
    assert_eq!(term_log_level("wArN"), Some(LogLevel::Warn));
    assert_eq!(file_log_level("trace"), Some(LogLevel::Trace));
    assert_eq!(file_log_level("off"), None);
    assert_eq!(file_log_level("verbose"), None);
}

#[test]
fn new_console_levels() {
    let c = Console::new();
    assert_eq!(c.log_level_term(), LogLevel::Info);
    assert_eq!(c.log_level_file(), LogLevel::Trace);
    assert!(!c._is_active());
}

#[test]
fn configure_without_environment_uses_settings() {
    let mut c = Console::new();
    let net = c.configure("warn", "error", None, None, None);
    assert_eq!(c.log_level_term(), LogLevel::Warn);
    assert_eq!(c.log_level_file(), LogLevel::Error);
    assert!(!net);
    let net = c.configure("bogus", "bogus", None, None, None);
    assert_eq!(c.log_level_term(), LogLevel::Info);
    assert_eq!(c.log_level_file(), LogLevel::Debug);
    assert!(net);
}

#[test]
fn configure_environment_precedence() {
    let mut c = Console::new();
    // RUST_LOG rules the terminal, LOG_LEVEL_FILE the file
    let net = c.configure_and_report("warn", "warn", Some("error"), Some("info"), Some("trace"));
    assert_eq!(c.log_level_term(), LogLevel::Error);
    assert_eq!(c.log_level_file(), LogLevel::Trace);
    assert!(net);
    // LOG_LEVEL beats RUST_LOG for the file
    c.configure("warn", "warn", Some("error"), Some("debug"), None);
    assert_eq!(c.log_level_term(), LogLevel::Error);
    assert_eq!(c.log_level_file(), LogLevel::Debug);
    // RUST_LOG alone sets both
    c.configure("warn", "warn", Some("trace"), None, Some("nonsense"));
    assert_eq!(c.log_level_term(), LogLevel::Trace);
    assert_eq!(c.log_level_file(), LogLevel::Trace);
}

#[test]
fn toggle_and_activate() {
    let mut c = Console::new();
    c.toggle();
    assert!(c._is_active());
    c.toggle();
    assert!(!c._is_active());
    c._activate();
    assert!(c._is_active());
}

#[test]
fn log_routing_by_level() {
    let mut c = Console::new();
    c.configure("info", "debug", None, None, None);
    assert_eq!(c.log_targets(LogLevel::Error), (true, true));
    assert_eq!(c.log_targets(LogLevel::Debug), (true, false));
    assert_eq!(c.log_targets(LogLevel::Trace), (false, false));
    assert_eq!(LogLevel::Error.rank(), 1);
    assert_eq!(LogLevel::Trace.rank(), 5);
}

#[test]
fn filtered_modules() {
    assert!(is_filtered_module("mime"));
    assert!(is_filtered_module("mime_guess::x"));
    assert!(!is_filtered_module("mim"));
    assert!(!is_filtered_module("rustcraft::mime"));
}

#[test]
fn source_paths_are_shortened() {
    assert_eq!(short_source_path("C:\\work\\src\\render\\mod.rs"), "render/mod.rs");
    assert_eq!(short_source_path("/a/src/b/src/c.rs"), "c.rs");
    assert_eq!(short_source_path("lib.rs"), "lib.rs");
    assert_eq!(short_source_path("x\\y.rs"), "x/y.rs");
    assert_eq!(short_source_path("src/"), "");
}

#[test]
fn epoch_stamps() {
    assert_eq!(format_epoch_stamp(0), "epoch+0d 00:00:00 (utc)");
    assert_eq!(format_epoch_stamp(86400 * 3 + 3600 * 5 + 60 * 7 + 9), "epoch+3d 05:07:09 (utc)");
    assert_eq!(format_epoch_stamp(86399), "epoch+0d 23:59:59 (utc)");
    let now = rfc3339_now();
    assert!(now.starts_with("epoch+") && now.ends_with(" (utc)"));
}

#[test]
fn epoch_stamp_of_clock_readings() {
    assert_eq!(epoch_stamp_of(Some(90061)), "epoch+1d 01:01:01 (utc)");
    assert_eq!(epoch_stamp_of(None), "epoch+0d 00:00:00 (utc)");
    assert!(rfc3339_now().starts_with("epoch+"));
}

#[test]
fn log_line_text() {
    assert_eq!(
        log_line(Some(r"C:\proj\src\screen\x.rs"), Some(10), LogLevel::Warn, "hi"),
        "[screen/x.rs:10][WARN] hi"
    );
    assert_eq!(log_line(None, None, LogLevel::Trace, "x"), "[:0][TRACE] x");
}

#[test]
fn new_console_history_is_blank() {
    let mut c = Console::new();
    assert_eq!(c.history_lines().len(), 200);
    assert!(c.history_lines().iter().all(|l| l.is_empty()));
    assert!(!c.take_redraw());
}

#[test]
fn log_routes_and_records_history() {
    let mut c = Console::new();
    let e = c
        .log(Some("rustcraft::screen"), Some(r"C:\proj\src\screen\x.rs"), Some(10), LogLevel::Warn, "hi")
        .unwrap();
    assert_eq!(e.text, "[screen/x.rs:10][WARN] hi");
    assert!(e.to_file);
    assert!(e.to_terminal);
    assert_eq!(c.history_lines().len(), 200);
    assert_eq!(c.history_lines()[199], "[screen/x.rs:10][WARN] hi");
    assert_eq!(c.history_lines()[198], "");
    assert!(c.take_redraw());
    assert!(!c.take_redraw());

    let d = c.log(Some("rustcraft"), Some("src/a.rs"), Some(3), LogLevel::Debug, "quiet").unwrap();
    assert!(d.to_file);
    assert!(!d.to_terminal);
    assert_eq!(c.history_lines()[199], "[screen/x.rs:10][WARN] hi");
    assert!(!c.take_redraw());

    assert!(c.log(Some("mime::parse"), None, None, LogLevel::Error, "dropped").is_none());
    assert_eq!(c.history_lines()[199], "[screen/x.rs:10][WARN] hi");
}

#[test]
fn level_colours() {
    assert_eq!(level_colour(LogLevel::Error), Colour::Red);
    assert_eq!(level_colour(LogLevel::Warn), Colour::Yellow);
    assert_eq!(level_colour(LogLevel::Info), Colour::Aqua);
    assert_eq!(level_colour(LogLevel::Debug), Colour::Green);
    assert_eq!(level_colour(LogLevel::Trace), Colour::Blue);
}

#[test]
fn history_keeps_coloured_parts() {
    let mut c = Console::new();
    assert_eq!(c.history_segments().len(), 200);
    assert_eq!(c.history_segments()[0].len(), 1);
    assert_eq!(c.history_segments()[0][0].text, "");
    c.log(Some("rustcraft"), Some("src/a/b.rs"), Some(7), LogLevel::Error, "boom");
    let last = &c.history_segments()[199];
    let parts: Vec<(&str, Option<Colour>)> = last.iter().map(|g| (g.text.as_str(), g.colour)).collect();
    assert_eq!(
        parts,
        vec![
            ("[", None),
            ("a/b.rs", Some(Colour::Green)),
            (":", None),
            ("7", Some(Colour::Aqua)),
            ("]", None),
            ("[", None),
            ("ERROR", Some(Colour::Red)),
            ("] ", None),
            ("boom", None),
        ]
    );
    let joined: String = last.iter().map(|g| g.text.as_str()).collect();
    assert_eq!(joined, c.history_lines()[199]);
    assert_eq!(log_segments(None, None, LogLevel::Info, "x").len(), 9);
}

#[test]
fn panic_report() {
    assert_eq!(panic_location("src/main.rs", 10, 5), "src/main.rs:10:5");
    let h = panic_header("T", "H", "B", "L", "M", "F", "BT");
    assert_eq!(
        h,
        "\n\n================ PANIC ================\n\
         time    : T\n\
         build   : H (built B)\n\
         location: L\n\
         message : M\n\
         log file: F\n\
         ---------------- backtrace ----------------\nBT\n\
         ========================================\n"
    );
    assert_eq!(crash_file_name(5), "crash-5.log");
}

use nshell::logger::{LogLevel, Logger};
use nshell::plugin::{
    lib_copy_name, lib_needs_reload, lifecycle_method_name, plugin_filename, temp_copy_name,
    PluginCheck, PluginSchedule, DEFAULT_CHECK_INTERVAL,
};

#[test]
fn level_names_parse() {
    assert_eq!("error".parse::<LogLevel>(), Ok(LogLevel::Error));
    assert_eq!("trace".parse::<LogLevel>(), Ok(LogLevel::Trace));
    assert_eq!(
        "loud".parse::<LogLevel>(),
        Err("Unknown log level: loud".to_string())
    );
}

#[test]
fn level_symbols() {
    assert_eq!(LogLevel::Error.symbol(), "E");
    assert_eq!(LogLevel::Warn.symbol(), "W");
    assert_eq!(LogLevel::Info.symbol(), "I");
    assert_eq!(LogLevel::Debug.symbol(), "D");
    assert_eq!(LogLevel::Trace.symbol(), "T");
}

#[test]
fn sub_loggers_extend_the_path() {
    let l = LogLevel::Info.logger().sub("nshell").sub("main");
    assert_eq!(
        l.info("started"),
        Some("I(nshell.main): started".to_string())
    );
    assert_eq!(l.error("boom"), Some("E(nshell.main): boom".to_string()));
}

#[test]
fn less_severe_messages_are_dropped() {
    let l = Logger::new(LogLevel::Warn);
    assert_eq!(l.warn("careful"), Some("W(): careful".to_string()));
    assert_eq!(l.info("chatty"), None);
    assert_eq!(l.debug("chattier"), None);
    assert_eq!(l.trace("chattiest"), None);
}

#[test]
fn trace_logger_keeps_everything() {
    let l = LogLevel::Trace.logger().sub("x");
    assert_eq!(l.trace("t"), Some("T(x): t".to_string()));
    assert_eq!(l.debug("d"), Some("D(x): d".to_string()));
}

#[test]
fn plugin_checks_first_update_then_every_interval() {
    let mut s = PluginSchedule::new(3);
    assert!(s.should_check());
    assert_eq!(s.check((10, 0)), PluginCheck::FoundNewVersion);
    assert_eq!(s.version(), 0);
    s.reloaded();
    assert_eq!(s.version(), 1);
    s.record_update();
    assert!(!s.should_check());
    s.record_update();
    s.record_update();
    assert!(s.should_check());
    assert_eq!(s.check((10, 0)), PluginCheck::Unchanged);
    assert_eq!(s.version(), 1);
    assert_eq!(s.check((10, 5)), PluginCheck::FoundNewVersion);
    s.reloaded();
    assert_eq!(s.version(), 2);
}

#[test]
fn default_interval() {
    assert_eq!(DEFAULT_CHECK_INTERVAL, 120);
}

#[test]
fn plugin_file_names() {
    assert_eq!(
        plugin_filename("target/debug", "abc_plugin", false),
        "target/debug/libabc_plugin.so"
    );
    assert_eq!(
        plugin_filename("target/debug", "abc_plugin", true),
        "target/debug/abc_plugin.dll"
    );
    assert_eq!(temp_copy_name("libabc", 12), "libabc_12.plugin");
}

#[test]
fn shared_library_reload_rules() {
    assert!(lib_needs_reload(false, (5, 0), (5, 0)));
    assert!(lib_needs_reload(true, (5, 0), (5, 1)));
    assert!(!lib_needs_reload(true, (5, 1), (5, 1)));
    assert_eq!(lib_copy_name("libgame", 3), "target/libgame_3.so");
    assert_eq!(lifecycle_method_name("game", "update"), "game_update");
}

#[test]
fn check_is_skipped_between_intervals() {
    let mut s = PluginSchedule::new(3);
    assert_eq!(s.check((10, 0)), PluginCheck::FoundNewVersion);
    s.reloaded();
    assert_eq!(s.version(), 1);
    s.record_update();
    assert!(!s.should_check());
    assert_eq!(s.check((20, 0)), PluginCheck::Unchanged);
    assert_eq!(s.version(), 1);
    s.record_update();
    s.record_update();
    assert_eq!(s.check((20, 0)), PluginCheck::FoundNewVersion);
    s.reloaded();
    assert_eq!(s.version(), 2);
}

#[test]
fn zero_interval_checks_before_the_first_update() {
    let mut s = PluginSchedule::new(0);
    assert!(s.should_check());
    assert_eq!(s.check((1, 0)), PluginCheck::FoundNewVersion);
    s.reloaded();
    assert_eq!(s.version(), 1);
}

#[test]
fn a_failed_load_keeps_the_version_but_not_the_time() {
    let mut s = PluginSchedule::new(3);
    assert_eq!(s.check((10, 0)), PluginCheck::FoundNewVersion);
    // The copy or load failed: no `reloaded`, so the version stays, while the
    // new time is remembered and the same build is not found again.
    assert_eq!(s.version(), 0);
    assert_eq!(s.check((10, 0)), PluginCheck::Unchanged);
}
